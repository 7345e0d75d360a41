//! The generic two-axis graph editor: a sorted collection of points, a
//! selection, a viewport, a pointer-driven focus state machine, a snap grid,
//! and a history of reversible actions.
//!
//! The editor never lets its ordering invariant lapse: a drag accumulates in
//! the focus state and the points move only when the drag commits, each move
//! re-sorting the data and remapping the selection through the resulting
//! [`SliceMove`]. Every mutation registers an action that records everything
//! needed to reverse it without re-reading live state.

use vstd::prelude::*;

verus! {

use crate::fixed::R64;
use crate::utils::{
    insert_pos, lemma_insert_pos_bounds, push_sorted, sorted_but_one, sorted_by_key, Keyed,
    RemoveError, SliceMove,
};

/// A point the editor can hold: ordered by [`Keyed::key`] (its horizontal
/// offset in plane units), movable, hit-testable, and copyable.
pub trait GraphPoint: Keyed {
    /// The point's own validity (offsets non-negative, pitch in range).
    spec fn wf_point(self) -> bool;

    /// What [`GraphPoint::move_by`] returns: the point translated by `dx`
    /// plane units and `dy_steps` vertical steps, clamped into its bounds;
    /// `meta` selects the point type's alternate move (stretching a length).
    spec fn moved_spec(self, dx: int, dy_steps: int, meta: bool) -> Self;

    /// What [`GraphPoint::create`] returns for a location.
    spec fn create_spec(x: int, y_steps: int) -> Self;

    /// Whether the point lies in the closed plane rectangle.
    spec fn hit_spec(self, x0: int, y0: int, x1: int, y1: int) -> bool;

    /// Translates the point, clamped into its own bounds.
    fn move_by(&mut self, dx: R64, dy_steps: i64, meta: bool)
        requires
            old(self).wf_point(),
        ensures
            *final(self) == old(self).moved_spec(dx@, dy_steps as int, meta),
            final(self).wf_point(),
    ;

    /// A new point at the given plane location.
    fn create(x: R64, y_steps: i64) -> (r: Self)
        ensures
            r == Self::create_spec(x@, y_steps as int),
            r.wf_point(),
    ;

    /// Whether the point lies in the closed plane rectangle.
    fn in_hitbox(&self, x0: R64, y0: R64, x1: R64, y1: R64) -> (r: bool)
        requires
            self.wf_point(),
        ensures
            r == self.hit_spec(x0@, y0@, x1@, y1@),
    ;

    /// An exact copy of the point.
    fn duplicate(&self) -> (r: Self)
        ensures
            r == *self,
    ;
}

/// One reversible editor mutation. Each action stores the selection on both
/// sides and enough point data to replay or reverse itself without re-reading
/// the live state.
pub enum EditorAction<P> {
    /// A point was inserted at `index`.
    AddPoint { index: usize, point: P, sel_before: Vec<usize>, sel_after: Vec<usize> },
    /// The points at the strictly ascending `ids` were removed; `points`
    /// holds them in the same order.
    RemovePoints { ids: Vec<usize>, points: Vec<P>, sel_before: Vec<usize>, sel_after: Vec<usize> },
    /// The point at `from` was replaced by `after` and re-sorted to `to`.
    ReplacePoint {
        from: usize,
        to: usize,
        before: P,
        after: P,
        sel_before: Vec<usize>,
        sel_after: Vec<usize>,
    },
    /// The selection was replaced.
    SetSelection { sel_before: Vec<usize>, sel_after: Vec<usize> },
}

/// Removes the elements of `d` at the strictly ascending indices `ids`,
/// highest first.
pub open spec fn remove_ids<P>(d: Seq<P>, ids: Seq<usize>) -> Seq<P>
    decreases ids.len(),
{
    if ids.len() == 0 {
        d
    } else {
        remove_ids(d, ids.drop_first()).remove(ids[0] as int)
    }
}

/// Restores elements removed by [`remove_ids`]: inserts `points` back at the
/// strictly ascending indices `ids`, lowest first.
pub open spec fn insert_ids<P>(d: Seq<P>, ids: Seq<usize>, points: Seq<P>) -> Seq<P>
    decreases ids.len(),
{
    if ids.len() == 0 {
        d
    } else {
        insert_ids(d.insert(ids[0] as int, points[0]), ids.drop_first(), points.drop_first())
    }
}

/// The indices are strictly ascending and all within a length.
pub open spec fn ids_valid(ids: Seq<usize>, len: int) -> bool {
    &&& forall|i: int| 0 <= i < ids.len() ==> #[trigger] ids[i] < len
    &&& forall|i: int, j: int| 0 <= i < j < ids.len() ==> #[trigger] ids[i] < #[trigger] ids[j]
}

/// Whether the action can fire on the state `(d, sel)`: its indices are in
/// range, its recorded before-values match the live state.
pub open spec fn action_applies<P>(a: EditorAction<P>, d: Seq<P>, sel: Seq<usize>) -> bool {
    match a {
        EditorAction::AddPoint { index, point, sel_before, sel_after } => {
            &&& index <= d.len()
            &&& sel_before@ == sel
        },
        EditorAction::RemovePoints { ids, points, sel_before, sel_after } => {
            &&& ids_valid(ids@, d.len() as int)
            &&& points@.len() == ids@.len()
            &&& forall|k: int| 0 <= k < ids@.len() ==> #[trigger] points@[k] == d[ids@[k] as int]
            &&& sel_before@ == sel
        },
        EditorAction::ReplacePoint { from, to, before, after, sel_before, sel_after } => {
            &&& (from as int) < d.len()
            &&& (to as int) < d.len()
            &&& d[from as int] == before
            &&& sel_before@ == sel
        },
        EditorAction::SetSelection { sel_before, sel_after } => sel_before@ == sel,
    }
}

/// The data after the action fires.
pub open spec fn apply_data<P>(a: EditorAction<P>, d: Seq<P>) -> Seq<P> {
    match a {
        EditorAction::AddPoint { index, point, .. } => d.insert(index as int, point),
        EditorAction::RemovePoints { ids, .. } => remove_ids(d, ids@),
        EditorAction::ReplacePoint { from, to, after, .. } => d.remove(from as int).insert(
            to as int,
            after,
        ),
        EditorAction::SetSelection { .. } => d,
    }
}

/// The selection after the action fires.
pub open spec fn apply_sel<P>(a: EditorAction<P>) -> Seq<usize> {
    match a {
        EditorAction::AddPoint { sel_after, .. } => sel_after@,
        EditorAction::RemovePoints { sel_after, .. } => sel_after@,
        EditorAction::ReplacePoint { sel_after, .. } => sel_after@,
        EditorAction::SetSelection { sel_after, .. } => sel_after@,
    }
}

/// The data after the action is reversed.
pub open spec fn unapply_data<P>(a: EditorAction<P>, d: Seq<P>) -> Seq<P> {
    match a {
        EditorAction::AddPoint { index, .. } => d.remove(index as int),
        EditorAction::RemovePoints { ids, points, .. } => insert_ids(d, ids@, points@),
        EditorAction::ReplacePoint { from, to, before, .. } => d.remove(to as int).insert(
            from as int,
            before,
        ),
        EditorAction::SetSelection { .. } => d,
    }
}

/// The selection after the action is reversed.
pub open spec fn unapply_sel<P>(a: EditorAction<P>) -> Seq<usize> {
    match a {
        EditorAction::AddPoint { sel_before, .. } => sel_before@,
        EditorAction::RemovePoints { sel_before, .. } => sel_before@,
        EditorAction::ReplacePoint { sel_before, .. } => sel_before@,
        EditorAction::SetSelection { sel_before, .. } => sel_before@,
    }
}

/// Inserting an element and removing it again returns the original sequence.
pub proof fn lemma_insert_remove<P>(s: Seq<P>, i: int, x: P)
    requires
        0 <= i <= s.len(),
    ensures
        s.insert(i, x).remove(i) == s,
{
    assert(s.insert(i, x).remove(i) =~= s);
}

/// Removing an element and inserting it back returns the original sequence.
pub proof fn lemma_remove_insert<P>(s: Seq<P>, i: int)
    requires
        0 <= i < s.len(),
    ensures
        s.remove(i).insert(i, s[i]) == s,
{
    assert(s.remove(i).insert(i, s[i]) =~= s);
}

/// Strictly ascending indices grow at least as fast as their positions.
proof fn lemma_ascending_gap(ids: Seq<usize>, i: int, j: int, len: int)
    requires
        ids_valid(ids, len),
        0 <= i <= j < ids.len(),
    ensures
        ids[i] + (j - i) <= ids[j],
    decreases j - i,
{
    if i < j {
        assert(ids[i] < ids[i + 1]);
        lemma_ascending_gap(ids, i + 1, j, len);
    }
}

/// [`remove_ids`] removes exactly as many elements as it is given indices.
pub proof fn lemma_remove_ids_len<P>(d: Seq<P>, ids: Seq<usize>)
    requires
        ids_valid(ids, d.len() as int),
    ensures
        remove_ids(d, ids).len() == d.len() - ids.len(),
    decreases ids.len(),
{
    if ids.len() > 0 {
        let rest = ids.drop_first();
        assert(forall|k: int| 0 <= k < rest.len() ==> #[trigger] rest[k] == ids[k + 1]);
        assert(ids_valid(rest, d.len() as int));
        lemma_remove_ids_len(d, rest);
        lemma_ascending_gap(ids, 0, ids.len() - 1, d.len() as int);
        assert(ids[0] + (ids.len() - 1) <= ids.last() < d.len());
        assert(ids[0] < remove_ids(d, rest).len());
    }
}

/// Indices below every removed index are untouched by [`remove_ids`].
proof fn lemma_remove_ids_prefix<P>(d: Seq<P>, ids: Seq<usize>, j: int)
    requires
        ids_valid(ids, d.len() as int),
        0 <= j < d.len(),
        forall|k: int| 0 <= k < ids.len() ==> j < #[trigger] ids[k],
    ensures
        remove_ids(d, ids).len() == d.len() - ids.len(),
        j < remove_ids(d, ids).len(),
        remove_ids(d, ids)[j] == d[j],
    decreases ids.len(),
{
    lemma_remove_ids_len(d, ids);
    if ids.len() > 0 {
        let rest = ids.drop_first();
        assert(forall|k: int| 0 <= k < rest.len() ==> #[trigger] rest[k] == ids[k + 1]);
        assert(ids_valid(rest, d.len() as int));
        lemma_remove_ids_prefix(d, rest, j);
        assert(j < ids[0]);
        lemma_remove_ids_len(d, rest);
        if ids.len() > 1 {
            lemma_ascending_gap(ids, 0, ids.len() - 1, d.len() as int);
        }
        assert(ids[0] < remove_ids(d, rest).len());
        assert(remove_ids(d, ids) == remove_ids(d, rest).remove(ids[0] as int));
        assert(remove_ids(d, rest).remove(ids[0] as int)[j] == remove_ids(d, rest)[j]);
    }
}

/// Putting removed elements back where they were removed restores the
/// original sequence.
pub proof fn lemma_remove_insert_ids<P>(d: Seq<P>, ids: Seq<usize>, points: Seq<P>)
    requires
        ids_valid(ids, d.len() as int),
        points.len() == ids.len(),
        forall|k: int| 0 <= k < ids.len() ==> #[trigger] points[k] == d[ids[k] as int],
    ensures
        insert_ids(remove_ids(d, ids), ids, points) == d,
    decreases ids.len(),
{
    if ids.len() > 0 {
        let rest = ids.drop_first();
        let prest = points.drop_first();
        assert(forall|k: int| 0 <= k < rest.len() ==> #[trigger] rest[k] == ids[k + 1]);
        assert(forall|k: int| 0 <= k < prest.len() ==> #[trigger] prest[k] == points[k + 1]);
        assert(ids_valid(rest, d.len() as int));
        let d1 = remove_ids(d, rest);
        lemma_remove_ids_prefix(d, rest, ids[0] as int);
        assert(d1[ids[0] as int] == d[ids[0] as int]);
        assert(remove_ids(d, ids) == d1.remove(ids[0] as int));
        lemma_remove_insert(d1, ids[0] as int);
        assert(remove_ids(d, ids).insert(ids[0] as int, points[0]) == d1);
        assert(insert_ids(remove_ids(d, ids), ids, points) == insert_ids(d1, rest, prest));
        lemma_remove_insert_ids(d, rest, prest);
    }
}

/// [`insert_ids`] adds exactly as many elements as it is given indices.
pub proof fn lemma_insert_ids_len<P>(d: Seq<P>, ids: Seq<usize>, points: Seq<P>)
    requires
        points.len() == ids.len(),
        ids_valid(ids, d.len() + ids.len() as int),
    ensures
        insert_ids(d, ids, points).len() == d.len() + ids.len(),
    decreases ids.len(),
{
    if ids.len() > 0 {
        lemma_ascending_gap(ids, 0, ids.len() - 1, d.len() + ids.len() as int);
        assert(ids[0] <= d.len());
        let rest = ids.drop_first();
        let prest = points.drop_first();
        assert(forall|k: int| 0 <= k < rest.len() ==> #[trigger] rest[k] == ids[k + 1]);
        let d1 = d.insert(ids[0] as int, points[0]);
        assert(d1.len() == d.len() + 1);
        assert(ids_valid(rest, d1.len() + rest.len() as int));
        lemma_insert_ids_len(d1, rest, prest);
    }
}

/// Undoing an action right after it fired restores the exact state it fired
/// on: the round trip of a single edit.
pub proof fn lemma_action_round_trip<P>(a: EditorAction<P>, d: Seq<P>, sel: Seq<usize>)
    requires
        action_applies(a, d, sel),
    ensures
        unapply_data(a, apply_data(a, d)) == d,
        unapply_sel(a) == sel,
{
    match a {
        EditorAction::AddPoint { index, point, .. } => {
            lemma_insert_remove(d, index as int, point);
        },
        EditorAction::RemovePoints { ids, points, .. } => {
            lemma_remove_insert_ids(d, ids@, points@);
        },
        EditorAction::ReplacePoint { from, to, before, after, .. } => {
            let d1 = d.remove(from as int);
            lemma_insert_remove(d1, to as int, after);
            lemma_remove_insert(d, from as int);
        },
        EditorAction::SetSelection { .. } => {},
    }
}

/// The state reached by firing a list of actions in order; `None` when one of
/// them does not apply.
pub open spec fn apply_all<P>(actions: Seq<EditorAction<P>>, d: Seq<P>, sel: Seq<usize>) -> Option<
    (Seq<P>, Seq<usize>),
>
    decreases actions.len(),
{
    if actions.len() == 0 {
        Some((d, sel))
    } else if action_applies(actions[0], d, sel) {
        apply_all(actions.drop_first(), apply_data(actions[0], d), apply_sel(actions[0]))
    } else {
        None
    }
}

/// The state reached by reversing a list of actions, last first.
pub open spec fn unapply_all<P>(actions: Seq<EditorAction<P>>, d: Seq<P>, sel: Seq<usize>) -> (
    Seq<P>,
    Seq<usize>,
)
    decreases actions.len(),
{
    if actions.len() == 0 {
        (d, sel)
    } else {
        let a = actions.last();
        unapply_all(actions.drop_last(), unapply_data(a, d), unapply_sel(a))
    }
}

/// A run of edits followed by as many undos returns to the starting state:
/// reversing, last first, every action that a list of edits applied restores
/// exactly the data and selection the run began with.
pub proof fn lemma_edits_then_undos<P>(
    actions: Seq<EditorAction<P>>,
    d: Seq<P>,
    sel: Seq<usize>,
    d_end: Seq<P>,
    sel_end: Seq<usize>,
)
    requires
        apply_all(actions, d, sel) == Some((d_end, sel_end)),
    ensures
        unapply_all(actions, d_end, sel_end) == (d, sel),
    decreases actions.len(),
{
    if actions.len() > 0 {
        let a = actions[0];
        let d1 = apply_data(a, d);
        let sel1 = apply_sel(a);
        lemma_edits_then_undos(actions.drop_first(), d1, sel1, d_end, sel_end);
        assert(unapply_all(actions.drop_first(), d_end, sel_end) == (d1, sel1));
        lemma_action_round_trip(a, d, sel);
        lemma_unapply_all_shift(actions, a, d_end, sel_end);
    }
}

/// Every public editor operation requires and re-establishes the editor's
/// invariant, so after each of them: the data is sorted by the points'
/// natural order, every selection index lies within the data, and whenever
/// the editor holds the pointer capture some drag focus owns it — no event
/// sequence leaves a captured pointer without a focus owner.
pub proof fn lemma_editor_invariant<P: GraphPoint>(e: GraphEditor<P>)
    requires
        e.wf(),
    ensures
        sorted_by_key(e.data@),
        forall|i: int| 0 <= i < e.selection@.len() ==> #[trigger] e.selection@[i] < e.data@.len(),
        e.captured ==> e.focus.owns_capture(),
{
}

/// `unapply_all` reverses the last action first, so splitting off the *first*
/// element of the list needs this restatement: the first action is the last
/// one reversed.
proof fn lemma_unapply_all_shift<P>(
    actions: Seq<EditorAction<P>>,
    a: EditorAction<P>,
    d: Seq<P>,
    sel: Seq<usize>,
)
    requires
        actions.len() > 0,
        actions[0] == a,
    ensures
        unapply_all(actions, d, sel) == {
            let (d1, sel1) = unapply_all(actions.drop_first(), d, sel);
            (unapply_data(a, d1), unapply_sel(a))
        },
    decreases actions.len(),
{
    if actions.len() == 1 {
        assert(actions.drop_first().len() == 0);
        assert(actions.drop_last().len() == 0);
        assert(actions.last() == a);
        assert(unapply_all(actions.drop_last(), unapply_data(a, d), unapply_sel(a)) == (
            unapply_data(a, d),
            unapply_sel(a),
        ));
        assert(unapply_all(actions, d, sel) == (unapply_data(a, d), unapply_sel(a)));
        assert(unapply_all(actions.drop_first(), d, sel) == (d, sel));
    } else {
        let last = actions.last();
        let front = actions.drop_last();
        assert(front.len() == actions.len() - 1);
        assert(front.len() > 0);
        assert(front[0] == actions[0]);
        let dl = unapply_data(last, d);
        let sell = unapply_sel(last);
        assert(unapply_all(actions, d, sel) == unapply_all(front, dl, sell));
        lemma_unapply_all_shift(front, a, dl, sell);
        let ih = unapply_all(front.drop_first(), dl, sell);
        assert(unapply_all(front, dl, sell) == (unapply_data(a, ih.0), unapply_sel(a)));
        let tail = actions.drop_first();
        assert(tail.len() > 0);
        assert(tail.last() == last);
        assert(tail.drop_last() =~= front.drop_first());
        assert(unapply_all(tail, d, sel) == unapply_all(front.drop_first(), dl, sell));
        let rhs = unapply_all(tail, d, sel);
        assert(rhs == ih);
        assert(unapply_all(actions, d, sel) == (unapply_data(a, rhs.0), unapply_sel(a)));
    }
}

/// The editor's whole state is well formed: data sorted by key, every point
/// valid, every selection index in range.
pub open spec fn wf_state<P: GraphPoint>(d: Seq<P>, sel: Seq<usize>) -> bool {
    &&& sorted_by_key(d)
    &&& d.len() < usize::MAX
    &&& forall|i: int| 0 <= i < d.len() ==> #[trigger] d[i].wf_point()
    &&& forall|i: int| 0 <= i < sel.len() ==> #[trigger] sel[i] < d.len()
}

/// The undo stack is coherent with the live state: reversing its actions,
/// last first, walks back through well-formed states, and re-applying each
/// action returns exactly to where it was undone from.
pub open spec fn undoable<P: GraphPoint>(
    d: Seq<P>,
    sel: Seq<usize>,
    done: Seq<EditorAction<P>>,
) -> bool
    decreases done.len(),
{
    done.len() == 0 || {
        let a = done.last();
        let d1 = unapply_data(a, d);
        let sel1 = unapply_sel(a);
        &&& action_applies(a, d1, sel1)
        &&& apply_data(a, d1) == d
        &&& apply_sel(a) == sel
        &&& wf_state(d1, sel1)
        &&& undoable(d1, sel1, done.drop_last())
    }
}

/// The redo stack is coherent with the live state: its actions re-apply, last
/// first, through well-formed states.
pub open spec fn redoable<P: GraphPoint>(
    d: Seq<P>,
    sel: Seq<usize>,
    undone: Seq<EditorAction<P>>,
) -> bool
    decreases undone.len(),
{
    undone.len() == 0 || {
        let a = undone.last();
        &&& action_applies(a, d, sel)
        &&& wf_state(apply_data(a, d), apply_sel(a))
        &&& redoable(apply_data(a, d), apply_sel(a), undone.drop_last())
    }
}

/// The kinds of pointer event the editor reacts to.
#[derive(Clone, Copy, Debug, PartialEq, Eq, Structural)]
pub enum PointerEventKind {
    /// The pointer entered the editor's canvas.
    Enter,
    /// The pointer moved.
    Moved,
    /// The primary button went down.
    Down,
    /// The primary button was released.
    Up,
    /// The pointer left the canvas.
    Leave,
}

/// One pointer event, already translated by the host into plane units.
#[derive(Clone, Copy, Debug, PartialEq, Eq, Structural)]
pub struct PointerEvent {
    pub kind: PointerEventKind,
    /// Horizontal plane location.
    pub x: R64,
    /// Vertical plane location.
    pub y: R64,
    /// Whether the meta modifier is held.
    pub meta: bool,
    /// Whether the shift modifier is held.
    pub shift: bool,
}

/// What the editor's pointer focus currently owns.
#[derive(Clone, Copy, Debug, PartialEq, Eq, Structural)]
pub enum Focus {
    /// The pointer is elsewhere.
    Idle,
    /// The pointer hovers over empty plane.
    HoverPlane,
    /// The pointer hovers over the point at the index.
    HoverPoint { id: usize },
    /// A point drag in progress: the dragged point's index, and the anchor
    /// and current pointer locations in plane units.
    MovePoint { id: usize, anchor_x: R64, anchor_y: R64, cur_x: R64, cur_y: R64 },
    /// A viewport pan in progress.
    PanPlane { last_x: R64, last_y: R64 },
    /// A pending point insertion, dragged to its location.
    AddDrag { cur_x: R64, cur_y: R64 },
    /// A rectangular selection drag.
    SelectArea { anchor_x: R64, anchor_y: R64, cur_x: R64, cur_y: R64 },
}

impl Focus {
    /// A drag that owns the pointer capture.
    pub open spec fn owns_capture(self) -> bool {
        match self {
            Focus::MovePoint { .. } => true,
            Focus::PanPlane { .. } => true,
            Focus::AddDrag { .. } => true,
            Focus::SelectArea { .. } => true,
            _ => false,
        }
    }
}

/// Removing elements keeps the remainder sorted and every point valid.
proof fn lemma_remove_ids_preserves<P: GraphPoint>(d: Seq<P>, ids: Seq<usize>)
    requires
        ids_valid(ids, d.len() as int),
        sorted_by_key(d),
        forall|i: int| 0 <= i < d.len() ==> #[trigger] d[i].wf_point(),
    ensures
        sorted_by_key(remove_ids(d, ids)),
        forall|i: int|
            0 <= i < remove_ids(d, ids).len() ==> #[trigger] remove_ids(d, ids)[i].wf_point(),
    decreases ids.len(),
{
    if ids.len() > 0 {
        let rest = ids.drop_first();
        assert(forall|k: int| 0 <= k < rest.len() ==> #[trigger] rest[k] == ids[k + 1]);
        assert(ids_valid(rest, d.len() as int));
        lemma_remove_ids_preserves(d, rest);
        lemma_remove_ids_len(d, rest);
        lemma_ascending_gap(ids, 0, ids.len() - 1, d.len() as int);
        let d1 = remove_ids(d, rest);
        assert(ids[0] < d1.len());
        let t = d1.remove(ids[0] as int);
        assert forall|i: int, j: int| 0 <= i < j < t.len() implies #[trigger] t[i].key()
            <= #[trigger] t[j].key() by {
            let si = if i < ids[0] { i } else { i + 1 };
            let sj = if j < ids[0] { j } else { j + 1 };
            assert(t[i] == d1[si] && t[j] == d1[sj]);
        }
        assert forall|i: int| 0 <= i < t.len() implies #[trigger] t[i].wf_point() by {
            let si = if i < ids[0] { i } else { i + 1 };
            assert(t[i] == d1[si]);
        }
    }
}

/// How many of the indices lie strictly below `s`.
pub open spec fn count_below(ids: Seq<usize>, s: int) -> int
    decreases ids.len(),
{
    if ids.len() == 0 {
        0
    } else {
        (if ids[0] < s {
            1int
        } else {
            0int
        }) + count_below(ids.drop_first(), s)
    }
}

/// The selection after a removal: removed indices drop out, the rest shift
/// down by the number of removed indices below them.
pub open spec fn remap_sel(sel: Seq<usize>, ids: Seq<usize>) -> Seq<usize>
    decreases sel.len(),
{
    if sel.len() == 0 {
        Seq::empty()
    } else {
        let rest = remap_sel(sel.drop_first(), ids);
        if ids.contains(sel[0]) {
            rest
        } else {
            seq![(sel[0] - count_below(ids, sel[0] as int)) as usize] + rest
        }
    }
}

/// For ascending indices, `count_below` is the length of the prefix that lies
/// below `s`.
proof fn lemma_count_below_ascending(ids: Seq<usize>, s: int, len: int)
    requires
        ids_valid(ids, len),
    ensures
        0 <= count_below(ids, s) <= ids.len(),
        forall|k: int| 0 <= k < count_below(ids, s) ==> #[trigger] ids[k] < s,
        forall|k: int| count_below(ids, s) <= k < ids.len() ==> #[trigger] ids[k] >= s,
    decreases ids.len(),
{
    if ids.len() > 0 {
        let rest = ids.drop_first();
        assert(forall|k: int| 0 <= k < rest.len() ==> #[trigger] rest[k] == ids[k + 1]);
        assert(ids_valid(rest, len));
        lemma_count_below_ascending(rest, s, len);
        let c = count_below(ids, s);
        if ids[0] < s {
            assert(c == 1 + count_below(rest, s));
            assert forall|k: int| 0 <= k < c implies #[trigger] ids[k] < s by {
                if k > 0 {
                    assert(rest[k - 1] == ids[k]);
                }
            }
            assert forall|k: int| c <= k < ids.len() implies #[trigger] ids[k] >= s by {
                assert(rest[k - 1] == ids[k]);
            }
        } else {
            assert(count_below(rest, s) == 0) by {
                if count_below(rest, s) > 0 {
                    assert(rest[0] < s);
                    assert(ids[0] < ids[1]);
                }
            }
            assert forall|k: int| 0 <= k < ids.len() implies #[trigger] ids[k] >= s by {
                if k > 0 {
                    lemma_ascending_gap(ids, 0, k, len);
                }
            }
        }
    }
}

/// A surviving selection index stays in range after the removal shift.
proof fn lemma_remap_in_range(ids: Seq<usize>, s: usize, len: int)
    requires
        ids_valid(ids, len),
        0 <= s < len,
        !ids.contains(s),
    ensures
        0 <= count_below(ids, s as int) <= s,
        s - count_below(ids, s as int) < len - ids.len(),
{
    lemma_count_below_ascending(ids, s as int, len);
    let c = count_below(ids, s as int);
    if c > 0 {
        lemma_ascending_gap(ids, 0, c - 1, len);
        assert(ids[c - 1] < s);
        assert(c - 1 <= ids[c - 1]);
    }
    // every index at or past the boundary is strictly above s
    assert forall|k: int| c <= k < ids.len() implies s < #[trigger] ids[k] by {
        assert(ids[k] >= s);
        if ids[k] == s {
            assert(ids.contains(s)) by {
                assert(ids[k] == s);
            }
        }
    }
    if c < ids.len() {
        lemma_ascending_gap(ids, c, ids.len() - 1, len);
        assert(s < ids[c]);
        assert(ids[c] + (ids.len() - 1 - c) <= ids[ids.len() - 1]);
        assert(ids[ids.len() - 1] < len);
    }
}

/// Point validity survives removing one element and inserting a valid one.
proof fn lemma_all_wf_remove_insert<P: GraphPoint>(d: Seq<P>, i: int, j: int, x: P)
    requires
        0 <= i < d.len(),
        0 <= j <= d.len() - 1,
        forall|k: int| 0 <= k < d.len() ==> #[trigger] d[k].wf_point(),
        x.wf_point(),
    ensures
        forall|k: int|
            0 <= k < d.remove(i).insert(j, x).len() ==> #[trigger] d.remove(i).insert(
                j,
                x,
            )[k].wf_point(),
{
    let d1 = d.remove(i);
    assert forall|k: int| 0 <= k < d1.len() implies #[trigger] d1[k].wf_point() by {
        let sk = if k < i {
            k
        } else {
            k + 1
        };
        assert(d1[k] == d[sk]);
    }
    let t = d1.insert(j, x);
    assert forall|k: int| 0 <= k < t.len() implies #[trigger] t[k].wf_point() by {
        if k < j {
            assert(t[k] == d1[k]);
        } else if k == j {
            assert(t[k] == x);
        } else {
            assert(t[k] == d1[k - 1]);
        }
    }
}

/// The first index value not below `len`, if any.
fn first_out_of_range(ids: &Vec<usize>, len: usize) -> (r: Option<usize>)
    ensures
        r is None <==> forall|j: int| 0 <= j < ids@.len() ==> #[trigger] ids@[j] < len,
        r is Some ==> exists|j: int| 0 <= j < ids@.len() && #[trigger] ids@[j] == r->0 && r->0
            >= len,
{
    let mut k: usize = 0;
    while k < ids.len()
        invariant
            0 <= k <= ids@.len(),
            forall|j: int| 0 <= j < k ==> #[trigger] ids@[j] < len,
        decreases ids@.len() - k,
    {
        if ids[k] >= len {
            return Some(ids[k]);
        }
        k += 1;
    }
    None
}

/// Whether the vector holds the value.
fn vec_contains(ids: &Vec<usize>, s: usize) -> (r: bool)
    ensures
        r == ids@.contains(s),
{
    let mut i: usize = 0;
    while i < ids.len()
        invariant
            0 <= i <= ids@.len(),
            forall|j: int| 0 <= j < i ==> #[trigger] ids@[j] != s,
        decreases ids@.len() - i,
    {
        if ids[i] == s {
            return true;
        }
        i += 1;
    }
    false
}

/// Counts the indices strictly below `s`.
fn count_below_exec(ids: &Vec<usize>, s: usize) -> (r: usize)
    ensures
        r as int == count_below(ids@, s as int),
        r <= ids@.len(),
{
    let ghost total = count_below(ids@, s as int);
    proof {
        assert(ids@.skip(0) =~= ids@);
    }
    let mut acc: usize = 0;
    let mut k: usize = 0;
    while k < ids.len()
        invariant
            0 <= k <= ids@.len(),
            acc <= k,
            acc as int + count_below(ids@.skip(k as int), s as int) == total,
        decreases ids@.len() - k,
    {
        proof {
            let sk = ids@.skip(k as int);
            assert(sk[0] == ids@[k as int]);
            assert(sk.drop_first() =~= ids@.skip(k as int + 1));
        }
        if ids[k] < s {
            acc += 1;
        }
        k += 1;
    }
    proof {
        assert(ids@.skip(ids@.len() as int).len() == 0);
    }
    acc
}

/// Re-inserts `points` at the strictly ascending `ids`, lowest first.
fn insert_points_at<P: GraphPoint>(v: &mut Vec<P>, ids: &Vec<usize>, points: &Vec<P>)
    requires
        ids_valid(ids@, old(v)@.len() + ids@.len() as int),
        points@.len() == ids@.len(),
        old(v)@.len() + ids@.len() < usize::MAX,
    ensures
        final(v)@ == insert_ids(old(v)@, ids@, points@),
{
    let ghost d0 = v@;
    proof {
        assert(ids@.skip(0) =~= ids@);
        assert(points@.skip(0) =~= points@);
    }
    let mut k: usize = 0;
    while k < ids.len()
        invariant
            0 <= k <= ids@.len(),
            points@.len() == ids@.len(),
            ids_valid(ids@, d0.len() + ids@.len() as int),
            d0.len() + ids@.len() < usize::MAX,
            v@.len() == d0.len() + k,
            insert_ids(v@, ids@.skip(k as int), points@.skip(k as int)) == insert_ids(
                d0,
                ids@,
                points@,
            ),
        decreases ids@.len() - k,
    {
        proof {
            if k < ids@.len() - 1 {
                lemma_ascending_gap(ids@, k as int, ids@.len() - 1, d0.len() + ids@.len() as int);
            }
            assert(ids@[k as int] <= d0.len() + k);
        }
        let ghost data_before = v@;
        v.insert(ids[k], points[k].duplicate());
        proof {
            let s = ids@.skip(k as int);
            let ps = points@.skip(k as int);
            assert(s[0] == ids@[k as int]);
            assert(ps[0] == points@[k as int]);
            assert(s.drop_first() =~= ids@.skip(k as int + 1));
            assert(ps.drop_first() =~= points@.skip(k as int + 1));
            assert(insert_ids(data_before, s, ps) == insert_ids(
                v@,
                ids@.skip(k as int + 1),
                points@.skip(k as int + 1),
            ));
        }
        k += 1;
    }
    proof {
        assert(ids@.skip(ids@.len() as int).len() == 0);
        assert(insert_ids(v@, ids@.skip(ids@.len() as int), points@.skip(ids@.len() as int))
            == v@);
    }
}

/// Removes the elements at the strictly ascending `ids`, highest first.
fn remove_points_at<P: GraphPoint>(v: &mut Vec<P>, ids: &Vec<usize>)
    requires
        ids_valid(ids@, old(v)@.len() as int),
    ensures
        final(v)@ == remove_ids(old(v)@, ids@),
{
    let ghost d0 = v@;
    proof {
        lemma_remove_ids_len(d0, ids@);
        assert(ids@.skip(ids@.len() as int).len() == 0);
    }
    let mut k: usize = ids.len();
    while k > 0
        invariant
            0 <= k <= ids@.len(),
            ids_valid(ids@, d0.len() as int),
            v@.len() == d0.len() - (ids@.len() - k),
            v@ == remove_ids(d0, ids@.skip(k as int)),
        decreases k,
    {
        proof {
            let s = ids@.skip(k as int - 1);
            assert(s[0] == ids@[k as int - 1]);
            assert(s.drop_first() =~= ids@.skip(k as int));
            if k < ids@.len() {
                lemma_ascending_gap(ids@, k as int - 1, ids@.len() - 1, d0.len() as int);
            }
            assert(ids@[k as int - 1] < d0.len() - (ids@.len() - k));
        }
        let _ = v.remove(ids[k - 1]);
        k -= 1;
    }
    proof {
        assert(ids@.skip(0) =~= ids@);
    }
}

/// Copies a vector of indices.
fn copy_indices(src: &Vec<usize>) -> (r: Vec<usize>)
    ensures
        r@ == src@,
{
    let mut r: Vec<usize> = Vec::new();
    let mut i: usize = 0;
    while i < src.len()
        invariant
            0 <= i <= src@.len(),
            r@ == src@.take(i as int),
        decreases src@.len() - i,
    {
        r.push(src[i]);
        proof {
            assert(r@ =~= src@.take(i as int + 1));
        }
        i += 1;
    }
    proof {
        assert(src@.take(src@.len() as int) =~= src@);
    }
    r
}


/// What one nudge leaves: the point at `idx` translated by the delta,
/// re-sorted to its ordered position, and every selection index remapped
/// through the move.
pub open spec fn nudge_spec<P: GraphPoint>(
    d: Seq<P>,
    sel: Seq<usize>,
    idx: int,
    dx: int,
    dy_steps: int,
    meta: bool,
) -> (Seq<P>, Seq<usize>) {
    let moved = d[idx].moved_spec(dx, dy_steps, meta);
    let to = insert_pos(d.remove(idx), moved.key());
    let m = SliceMove { from: idx as usize, to: to as usize };
    (
        d.remove(idx).insert(to, moved),
        Seq::new(sel.len(), |i: int| m.remap(sel[i] as int) as usize),
    )
}

/// What a drag of a whole selection leaves: the first `k` selected points
/// nudged in turn, each nudge remapping the selection the next one reads.
pub open spec fn commit_fold<P: GraphPoint>(
    d: Seq<P>,
    sel: Seq<usize>,
    k: int,
    dx: int,
    dy_steps: int,
    meta: bool,
) -> (Seq<P>, Seq<usize>)
    decreases k,
{
    if k <= 0 {
        (d, sel)
    } else {
        let prev = commit_fold(d, sel, k - 1, dx, dy_steps, meta);
        nudge_spec(prev.0, prev.1, prev.1[k - 1] as int, dx, dy_steps, meta)
    }
}

/// The selection with every occurrence of `id` removed.
pub open spec fn sel_without(sel: Seq<usize>, id: usize) -> Seq<usize>
    decreases sel.len(),
{
    if sel.len() == 0 {
        Seq::empty()
    } else {
        (if sel[0] == id {
            Seq::empty()
        } else {
            seq![sel[0]]
        }) + sel_without(sel.drop_first(), id)
    }
}

/// A shift-click's selection: membership of the clicked point toggles.
pub open spec fn toggle_spec(sel: Seq<usize>, id: usize) -> Seq<usize> {
    if sel.contains(id) {
        sel_without(sel, id)
    } else {
        sel_without(sel, id).push(id)
    }
}

/// What a finished point drag leaves: a drag that went nowhere is a click
/// and replaces the selection with the clicked point (or toggles it under
/// shift); otherwise the dragged point — or, when it is selected, every
/// selected point in turn — moves by the delta.
pub open spec fn commit_spec<P: GraphPoint>(
    d: Seq<P>,
    sel: Seq<usize>,
    id: usize,
    dx: int,
    dy_steps: int,
    meta: bool,
    shift: bool,
) -> (Seq<P>, Seq<usize>) {
    if dx == 0 && dy_steps == 0 {
        if shift {
            (d, toggle_spec(sel, id))
        } else {
            (d, seq![id])
        }
    } else if sel.contains(id) {
        commit_fold(d, sel, sel.len() as int, dx, dy_steps, meta)
    } else {
        nudge_spec(d, sel, id as int, dx, dy_steps, meta)
    }
}

/// The indices of the points whose hitbox meets the closed rectangle, among
/// the first `k`, ascending.
pub open spec fn hit_indices<P: GraphPoint>(
    d: Seq<P>,
    x0: int,
    y0: int,
    x1: int,
    y1: int,
    k: int,
) -> Seq<usize>
    decreases k,
{
    if k <= 0 {
        Seq::empty()
    } else {
        let prev = hit_indices(d, x0, y0, x1, y1, k - 1);
        if d[k - 1].hit_spec(x0, y0, x1, y1) {
            prev.push((k - 1) as usize)
        } else {
            prev
        }
    }
}


/// A value clamped into the machine range, as saturating arithmetic leaves it.
pub open spec fn sat_units(v: int) -> int {
    if v > i64::MAX as int {
        i64::MAX as int
    } else if v < i64::MIN as int {
        i64::MIN as int
    } else {
        v
    }
}

/// The horizontal delta a finished drag commits: the pointer travel, kept
/// away from the unnegatable minimum, truncated to the snap step.
pub open spec fn drag_dx_spec(anchor_x: R64, cur_x: R64, snap: R64) -> int {
    let d1 = sat_units(cur_x@ - anchor_x@);
    let d2 = if d1 >= -(i64::MAX as int) {
        d1
    } else {
        -(i64::MAX as int)
    };
    (R64 { units: d2 as i64 }).snap_spec(snap)
}

/// The vertical step delta a finished drag commits: the pointer travel in
/// whole rows, truncated toward zero.
pub open spec fn drag_dy_spec(anchor_y: R64, cur_y: R64) -> int {
    let d1 = sat_units(cur_y@ - anchor_y@);
    let d2 = if d1 >= -(i64::MAX as int) {
        d1
    } else {
        -(i64::MAX as int)
    };
    if d2 >= 0 {
        d2 / crate::UNIT as int
    } else {
        -((-d2) / crate::UNIT as int)
    }
}

/// The horizontal location a finished add drag commits: snapped to the grid
/// and kept non-negative.
pub open spec fn add_drag_x_spec(cur_x: R64, snap: R64) -> int {
    let c = if cur_x@ >= -(i64::MAX as int) {
        cur_x@
    } else {
        -(i64::MAX as int)
    };
    let sn = (R64 { units: c as i64 }).snap_spec(snap);
    if sn >= 0 {
        sn
    } else {
        0
    }
}

/// The vertical step a finished add drag commits.
pub open spec fn add_drag_y_spec(cur_y: R64) -> int {
    let c = if cur_y@ >= -(i64::MAX as int) {
        cur_y@
    } else {
        -(i64::MAX as int)
    };
    if c >= 0 {
        c / crate::UNIT as int
    } else {
        -((-c) / crate::UNIT as int)
    }
}

/// The generic two-axis graph editor: a key-sorted collection of points, a
/// selection of indices into it, a viewport, a snap step, a pointer focus,
/// and two stacks of reversible actions.
pub struct GraphEditor<P> {
    /// The points, always sorted by their keys.
    pub data: Vec<P>,
    /// Indices into `data`.
    pub selection: Vec<usize>,
    /// Plane units shown per canvas width.
    pub scale_x: R64,
    /// Plane units shown per canvas height.
    pub scale_y: R64,
    /// Viewport offset, horizontal.
    pub offset_x: R64,
    /// Viewport offset, vertical.
    pub offset_y: R64,
    /// Lowest allowed horizontal viewport offset.
    pub offset_x_min: R64,
    /// Lowest allowed vertical viewport offset.
    pub offset_y_min: R64,
    /// Highest allowed vertical viewport offset.
    pub offset_y_max: R64,
    /// Horizontal snap step in plane units; zero turns snapping off.
    pub snap_step: R64,
    /// The pointer focus state machine.
    pub focus: Focus,
    /// Whether the editor holds the host's pointer capture.
    pub captured: bool,
    /// Whether the host should redraw the editor's canvas.
    pub redraw: bool,
    /// Actions that can be undone, oldest first.
    pub done: Vec<EditorAction<P>>,
    /// Actions that can be redone, oldest first.
    pub undone: Vec<EditorAction<P>>,
}

impl<P: GraphPoint> GraphEditor<P> {
    /// The editor's invariant: state well-formed, both history stacks
    /// coherent with it, and the pointer capture owned by a drag focus.
    pub open spec fn wf(self) -> bool {
        &&& wf_state(self.data@, self.selection@)
        &&& undoable(self.data@, self.selection@, self.done@)
        &&& redoable(self.data@, self.selection@, self.undone@)
        &&& (self.captured ==> self.focus.owns_capture())
        &&& (match self.focus {
            Focus::HoverPoint { id } => id < self.data@.len(),
            Focus::MovePoint { id, .. } => id < self.data@.len(),
            _ => true,
        })
    }

    /// An empty editor with the given viewport and snap configuration.
    pub fn new(
        scale_x: R64,
        scale_y: R64,
        offset_x_min: R64,
        offset_y_min: R64,
        offset_y_max: R64,
        snap_step: R64,
    ) -> (r: Self)
        ensures
            r.wf(),
            r.data@.len() == 0,
            r.selection@.len() == 0,
            r.done@.len() == 0,
            r.undone@.len() == 0,
            r.focus is Idle,
            !r.captured,
    {
        GraphEditor {
            data: Vec::new(),
            selection: Vec::new(),
            scale_x,
            scale_y,
            offset_x: R64::zero(),
            offset_y: R64::zero(),
            offset_x_min,
            offset_y_min,
            offset_y_max,
            snap_step,
            focus: Focus::Idle,
            captured: false,
            redraw: true,
            done: Vec::new(),
            undone: Vec::new(),
        }
    }

    /// The current selection.
    pub fn selection(&self) -> (r: &Vec<usize>)
        ensures
            r@ == self.selection@,
    {
        &self.selection
    }

    /// Number of points held.
    pub fn len(&self) -> (r: usize)
        ensures
            r == self.data@.len(),
    {
        self.data.len()
    }

    /// Selects a snap interval by its switch position: off, one beat, a
    /// half, a quarter or an eighth; other positions mean off.
    pub fn set_snap(&mut self, choice: usize)
        ensures
            final(self).snap_step@ == (if choice == 1 {
                1_000_000int
            } else if choice == 2 {
                500_000int
            } else if choice == 3 {
                250_000int
            } else if choice == 4 {
                125_000int
            } else {
                0int
            }),
            final(self).data == old(self).data,
            final(self).selection == old(self).selection,
            final(self).focus == old(self).focus,
            final(self).captured == old(self).captured,
            final(self).done == old(self).done,
            final(self).undone == old(self).undone,
            old(self).wf() ==> final(self).wf(),
    {
        self.snap_step = R64::from_units(
            if choice == 1 {
                1_000_000
            } else if choice == 2 {
                500_000
            } else if choice == 3 {
                250_000
            } else if choice == 4 {
                125_000
            } else {
                0
            },
        );
    }

    /// Asks the host to redraw the editor's canvas.
    pub fn force_redraw(&mut self)
        ensures
            final(self).redraw,
            final(self).data == old(self).data,
            final(self).selection == old(self).selection,
            final(self).focus == old(self).focus,
            final(self).captured == old(self).captured,
            final(self).done == old(self).done,
            final(self).undone == old(self).undone,
            old(self).wf() ==> final(self).wf(),
    {
        self.redraw = true;
    }

    /// Records a completed mutation in the history: the caller has already
    /// changed the state and hands over the action together with the state it
    /// fired on. The redo stack is invalidated.
    fn register(&mut self, a: EditorAction<P>, Ghost(prev_d): Ghost<Seq<P>>, Ghost(prev_sel): Ghost<Seq<usize>>)
        requires
            action_applies(a, prev_d, prev_sel),
            apply_data(a, prev_d) == old(self).data@,
            apply_sel(a) == old(self).selection@,
            wf_state(prev_d, prev_sel),
            wf_state(old(self).data@, old(self).selection@),
            undoable(prev_d, prev_sel, old(self).done@),
        ensures
            final(self).data == old(self).data,
            final(self).selection == old(self).selection,
            final(self).focus == old(self).focus,
            final(self).captured == old(self).captured,
            final(self).scale_x == old(self).scale_x,
            final(self).scale_y == old(self).scale_y,
            final(self).offset_x == old(self).offset_x,
            final(self).offset_y == old(self).offset_y,
            final(self).snap_step == old(self).snap_step,
            final(self).done@ == old(self).done@.push(a),
            final(self).undone@.len() == 0,
            undoable(final(self).data@, final(self).selection@, final(self).done@),
            redoable(final(self).data@, final(self).selection@, final(self).undone@),
    {
        proof {
            lemma_action_round_trip(a, prev_d, prev_sel);
        }
        self.done.push(a);
        self.undone = Vec::new();
        proof {
            assert(final(self).done@.last() == a);
            assert(final(self).done@.drop_last() =~= old(self).done@);
        }
    }

    /// Inserts the point at its ordered position and returns that position.
    /// Selection indices at or past it shift up by one, so they keep pointing
    /// at the same points. The insertion is recorded in the history.
    pub fn add_point(&mut self, point: P) -> (r: usize)
        requires
            old(self).wf(),
            point.wf_point(),
            old(self).data@.len() + 1 < usize::MAX,
        ensures
            final(self).wf(),
            r == insert_pos(old(self).data@, point.key()),
            r <= old(self).data@.len(),
            final(self).data@ == old(self).data@.insert(r as int, point),
            final(self).data@.len() == old(self).data@.len() + 1,
            final(self).selection@.len() == old(self).selection@.len(),
            forall|i: int|
                0 <= i < old(self).selection@.len() ==> #[trigger] final(self).selection@[i]
                    == if old(self).selection@[i] >= r {
                    old(self).selection@[i] + 1
                } else {
                    old(self).selection@[i] as int
                },
            final(self).done@.len() == old(self).done@.len() + 1,
            final(self).done@.drop_last() == old(self).done@,
            ({
                let a = final(self).done@.last();
                &&& a is AddPoint
                &&& a->AddPoint_index == r
                &&& a->AddPoint_point == point
                &&& a->AddPoint_sel_before@ == old(self).selection@
                &&& a->AddPoint_sel_after@ == final(self).selection@
            }),
            final(self).undone@.len() == 0,
            final(self).focus == old(self).focus,
            final(self).captured == old(self).captured,
    {
        let ghost prev_d = self.data@;
        let ghost prev_sel = self.selection@;
        let sel_before = copy_indices(&self.selection);
        let p_ins = point.duplicate();
        let pos = push_sorted(&mut self.data, p_ins);
        proof {
            lemma_insert_pos_bounds(prev_d, point.key());
            assert(self.data@ == prev_d.insert(pos as int, point));
        }
        // shift selection indices at or past the insertion point
        let mut new_sel = copy_indices(&self.selection);
        let n = new_sel.len();
        let mut i: usize = 0;
        while i < n
            invariant
                0 <= i <= n,
                n == new_sel@.len(),
                new_sel@.len() == prev_sel.len(),
                prev_d.len() + 1 < usize::MAX,
                pos <= prev_d.len(),
                forall|j: int| 0 <= j < prev_sel.len() ==> #[trigger] prev_sel[j] < prev_d.len(),
                forall|j: int| i <= j < n ==> #[trigger] new_sel@[j] == prev_sel[j],
                forall|j: int|
                    0 <= j < i ==> #[trigger] new_sel@[j] == if prev_sel[j] >= pos {
                        prev_sel[j] + 1
                    } else {
                        prev_sel[j] as int
                    },
            decreases n - i,
        {
            let s = new_sel[i];
            if s >= pos {
                new_sel.set(i, s + 1);
            }
            i += 1;
        }
        self.selection = new_sel;
        let sel_after = copy_indices(&self.selection);
        let a = EditorAction::AddPoint {
            index: pos,
            point: point.duplicate(),
            sel_before,
            sel_after,
        };
        proof {
            assert(apply_data(a, prev_d) =~= self.data@);
            assert(apply_sel(a) =~= self.selection@);
        }
        self.register(a, Ghost(prev_d), Ghost(prev_sel));
        pos
    }

    /// Replaces the selection. The change is recorded in the history.
    pub fn set_selection(&mut self, sel: Vec<usize>)
        requires
            old(self).wf(),
            forall|i: int| 0 <= i < sel@.len() ==> #[trigger] sel@[i] < old(self).data@.len(),
        ensures
            final(self).wf(),
            final(self).data@ == old(self).data@,
            final(self).selection@ == sel@,
            final(self).done@.len() == old(self).done@.len() + 1,
            final(self).done@.drop_last() == old(self).done@,
            ({
                let a = final(self).done@.last();
                &&& a is SetSelection
                &&& a->SetSelection_sel_before@ == old(self).selection@
                &&& a->SetSelection_sel_after@ == sel@
            }),
            final(self).undone@.len() == 0,
            final(self).focus == old(self).focus,
            final(self).captured == old(self).captured,
    {
        let ghost prev_d = self.data@;
        let ghost prev_sel = self.selection@;
        let sel_before = copy_indices(&self.selection);
        let sel_after = copy_indices(&sel);
        self.selection = sel;
        let a = EditorAction::SetSelection { sel_before, sel_after };
        self.register(a, Ghost(prev_d), Ghost(prev_sel));
    }

    /// Removes the points at the strictly ascending indices `ids`, highest
    /// first; removed indices drop out of the selection and the rest shift
    /// down past them. `Err` exactly when an index is out of bounds, and then
    /// the editor is unchanged. The removal is recorded in the history.
    pub fn remove_points(&mut self, ids: &Vec<usize>) -> (r: Result<(), RemoveError>)
        requires
            old(self).wf(),
            forall|i: int, j: int|
                0 <= i < j < ids@.len() ==> #[trigger] ids@[i] < #[trigger] ids@[j],
        ensures
            final(self).wf(),
            r is Ok <==> ids_valid(ids@, old(self).data@.len() as int),
            r is Err ==> *final(self) == *old(self),
            r is Ok ==> {
                &&& final(self).data@ == remove_ids(old(self).data@, ids@)
                &&& final(self).selection@ == remap_sel(old(self).selection@, ids@)
                &&& final(self).done@.len() == old(self).done@.len() + 1
                &&& final(self).done@.drop_last() == old(self).done@
                &&& ({
                    let a = final(self).done@.last();
                    &&& a is RemovePoints
                    &&& a->RemovePoints_ids@ == ids@
                    &&& a->RemovePoints_points@.len() == ids@.len()
                    &&& forall|k: int|
                        0 <= k < ids@.len() ==> (#[trigger] a->RemovePoints_points@[k]) == old(
                            self,
                        ).data@[ids@[k] as int]
                    &&& a->RemovePoints_sel_before@ == old(self).selection@
                    &&& a->RemovePoints_sel_after@ == final(self).selection@
                })
                &&& final(self).undone@.len() == 0
            },
    {
        let ghost prev_d = self.data@;
        let ghost prev_sel = self.selection@;
        let len = self.data.len();
        // bounds scan; on failure nothing is touched
        match first_out_of_range(ids, len) {
            Some(bad) => {
                return Err(RemoveError { index: bad, len });
            },
            None => {},
        }
        // snapshot the points about to be removed, in ascending order
        let mut pts: Vec<P> = Vec::new();
        let mut k: usize = 0;
        while k < ids.len()
            invariant
                0 <= k <= ids@.len(),
                len == self.data@.len(),
                self.data@ == prev_d,
                forall|j: int| 0 <= j < ids@.len() ==> #[trigger] ids@[j] < len,
                pts@.len() == k,
                forall|j: int| 0 <= j < k ==> #[trigger] pts@[j] == prev_d[ids@[j] as int],
            decreases ids@.len() - k,
        {
            let p = self.data[ids[k]].duplicate();
            pts.push(p);
            k += 1;
        }
        let sel_before = copy_indices(&self.selection);
        remove_points_at(&mut self.data, ids);
        proof {
            lemma_remove_ids_len(prev_d, ids@);
            lemma_remove_ids_preserves(prev_d, ids@);
        }
        // remap the selection: drop removed indices, shift the rest down
        let mut new_sel: Vec<usize> = Vec::new();
        let ghost target = remap_sel(prev_sel, ids@);
        proof {
            assert(prev_sel.skip(0) =~= prev_sel);
        }
        let n = self.selection.len();
        let mut k: usize = 0;
        while k < n
            invariant
                0 <= k <= n,
                n == self.selection@.len(),
                self.selection@ == prev_sel,
                target == remap_sel(prev_sel, ids@),
                prev_d.len() == len,
                ids_valid(ids@, len as int),
                forall|j: int| 0 <= j < prev_sel.len() ==> #[trigger] prev_sel[j] < len,
                new_sel@ + remap_sel(prev_sel.skip(k as int), ids@) == target,
                forall|j: int|
                    0 <= j < new_sel@.len() ==> #[trigger] new_sel@[j] < len - ids@.len(),
            decreases n - k,
        {
            let s = self.selection[k];
            proof {
                let sk = prev_sel.skip(k as int);
                assert(sk[0] == prev_sel[k as int]);
                assert(sk.drop_first() =~= prev_sel.skip(k as int + 1));
            }
            let ghost sel_snap = new_sel@;
            if !vec_contains(ids, s) {
                proof {
                    lemma_remap_in_range(ids@, s, len as int);
                }
                let c = count_below_exec(ids, s);
                new_sel.push(s - c);
                proof {
                    assert(new_sel@ =~= sel_snap + seq![
                        (prev_sel[k as int] - count_below(ids@, prev_sel[k as int] as int)) as usize,
                    ]);
                    assert(new_sel@ + remap_sel(prev_sel.skip(k as int + 1), ids@) =~= sel_snap
                        + remap_sel(prev_sel.skip(k as int), ids@));
                }
            }
            k += 1;
        }
        proof {
            assert(prev_sel.skip(n as int).len() == 0);
            assert(new_sel@ =~= new_sel@ + remap_sel(prev_sel.skip(n as int), ids@));
        }
        self.selection = new_sel;
        let sel_after = copy_indices(&self.selection);
        let a = EditorAction::RemovePoints { ids: copy_indices(ids), points: pts, sel_before, sel_after };
        proof {
            assert(apply_data(a, prev_d) == self.data@);
            assert(apply_sel(a) =~= self.selection@);
        }
        self.focus = Focus::Idle;
        self.captured = false;
        self.register(a, Ghost(prev_d), Ghost(prev_sel));
        Ok(())
    }

    /// Moves the point at `idx` by `dx` plane units and `dy_steps` vertical
    /// steps (the point type's alternate move under `meta`), re-sorts it to
    /// its ordered position, and remaps the selection through the returned
    /// move so it keeps pointing at the same points. Recorded in the history.
    pub fn nudge_point(&mut self, idx: usize, dx: R64, dy_steps: i64, meta: bool) -> (m: SliceMove)
        requires
            old(self).wf(),
            idx < old(self).data@.len(),
        ensures
            final(self).wf(),
            m.from == idx,
            m.to < old(self).data@.len(),
            final(self).data@ == old(self).data@.remove(idx as int).insert(
                m.to as int,
                old(self).data@[idx as int].moved_spec(dx@, dy_steps as int, meta),
            ),
            final(self).data@.len() == old(self).data@.len(),
            final(self).selection@.len() == old(self).selection@.len(),
            forall|i: int|
                0 <= i < old(self).selection@.len() ==> #[trigger] final(self).selection@[i]
                    == m.remap(old(self).selection@[i] as int),
            (final(self).data@, final(self).selection@) == nudge_spec(
                old(self).data@,
                old(self).selection@,
                idx as int,
                dx@,
                dy_steps as int,
                meta,
            ),
            final(self).done@.len() == old(self).done@.len() + 1,
            final(self).done@.drop_last() == old(self).done@,
            ({
                let a = final(self).done@.last();
                &&& a is ReplacePoint
                &&& a->ReplacePoint_from == idx
                &&& a->ReplacePoint_to == m.to
                &&& a->ReplacePoint_before == old(self).data@[idx as int]
                &&& a->ReplacePoint_after == old(self).data@[idx as int].moved_spec(
                    dx@,
                    dy_steps as int,
                    meta,
                )
                &&& a->ReplacePoint_sel_before@ == old(self).selection@
                &&& a->ReplacePoint_sel_after@ == final(self).selection@
            }),
            final(self).undone@.len() == 0,
            final(self).focus == old(self).focus,
            final(self).captured == old(self).captured,
    {
        let ghost prev_d = self.data@;
        let ghost prev_sel = self.selection@;
        let sel_before = copy_indices(&self.selection);
        let before = self.data[idx].duplicate();
        let mut p = before.duplicate();
        p.move_by(dx, dy_steps, meta);
        let after = p.duplicate();
        self.data.set(idx, p);
        proof {
            assert(self.data@ == prev_d.update(idx as int, after));
            assert(sorted_but_one(self.data@, idx as int)) by {
                assert(forall|i: int, j: int|
                    0 <= i < j < self.data@.len() && i != idx && j != idx
                        ==> #[trigger] self.data@[i].key() == prev_d[i].key()
                        && #[trigger] self.data@[j].key() == prev_d[j].key());
            }
        }
        let res = crate::utils::reorder(&mut self.data, idx);
        let m = res.unwrap();
        proof {
            assert(prev_d.update(idx as int, after).remove(idx as int) =~= prev_d.remove(
                idx as int,
            ));
            assert(prev_d.update(idx as int, after)[idx as int] == after);
            lemma_insert_pos_bounds(prev_d.remove(idx as int), after.key());
            assert(m.to < prev_d.len());
        }
        // remap the selection through the move
        let mut new_sel = copy_indices(&self.selection);
        m.apply(&mut new_sel);
        proof {
            assert forall|i: int| 0 <= i < new_sel@.len() implies #[trigger] new_sel@[i]
                < prev_d.len() by {
                assert(new_sel@[i] == m.remap(prev_sel[i] as int));
                assert(prev_sel[i] < prev_d.len());
            }
        }
        self.selection = new_sel;
        let sel_after = copy_indices(&self.selection);
        let a = EditorAction::ReplacePoint {
            from: idx,
            to: m.to,
            before,
            after: after.duplicate(),
            sel_before,
            sel_after,
        };
        proof {
            assert(apply_data(a, prev_d) == self.data@);
            assert(apply_sel(a) =~= self.selection@);
            lemma_all_wf_remove_insert(prev_d, idx as int, m.to as int, after);
            assert(self.selection@ =~= nudge_spec(
                prev_d,
                prev_sel,
                idx as int,
                dx@,
                dy_steps as int,
                meta,
            ).1);
        }
        self.register(a, Ghost(prev_d), Ghost(prev_sel));
        m
    }

    /// The lowest point index whose hitbox contains the location, if any.
    pub fn find_hit(&self, x: R64, y: R64) -> (r: Option<usize>)
        requires
            self.wf(),
        ensures
            r is Some ==> r->0 < self.data@.len() && self.data@[r->0 as int].hit_spec(
                x@,
                y@,
                x@,
                y@,
            ),
            r is None ==> forall|i: int|
                0 <= i < self.data@.len() ==> !(#[trigger] self.data@[i].hit_spec(x@, y@, x@, y@)),
    {
        let mut i: usize = 0;
        while i < self.data.len()
            invariant
                0 <= i <= self.data@.len(),
                self.wf(),
                forall|j: int|
                    0 <= j < i ==> !(#[trigger] self.data@[j].hit_spec(x@, y@, x@, y@)),
            decreases self.data@.len() - i,
        {
            if self.data[i].in_hitbox(x, y, x, y) {
                return Some(i);
            }
            i += 1;
        }
        None
    }

    /// Commits a finished point drag: moves the dragged point — or, when it is
    /// selected, every selected point — by the drag's snapped delta, each move
    /// re-sorting the data and remapping the selection. A drag that went
    /// nowhere is a click and replaces the selection with the clicked point
    /// (or toggles it under shift).
    /// Commits a finished point drag per [`commit_spec`]: a zero-delta drag
    /// is a click that replaces the selection with the clicked point (or
    /// toggles it under shift); otherwise the dragged point — or, when it is
    /// selected, every selected point in turn — moves by the delta, each move
    /// re-sorting the data and remapping the selection.
    fn commit_move(&mut self, id: usize, dx: R64, dy_steps: i64, meta: bool, shift: bool)
        requires
            old(self).wf(),
            id < old(self).data@.len(),
        ensures
            final(self).wf(),
            final(self).data@.len() == old(self).data@.len(),
            final(self).focus == old(self).focus,
            final(self).captured == old(self).captured,
            (final(self).data@, final(self).selection@) == commit_spec(
                old(self).data@,
                old(self).selection@,
                id,
                dx@,
                dy_steps as int,
                meta,
                shift,
            ),
    {
        let ghost d0 = self.data@;
        let ghost sel0 = self.selection@;
        if dx.is_zero() && dy_steps == 0 {
            // a click: replace the selection, or toggle membership under shift
            if shift {
                let mut new_sel: Vec<usize> = Vec::new();
                let mut found = false;
                let n = self.selection.len();
                proof {
                    assert(sel0.skip(0) =~= sel0);
                }
                let mut k: usize = 0;
                while k < n
                    invariant
                        0 <= k <= n,
                        n == self.selection@.len(),
                        self.selection@ == sel0,
                        self.wf(),
                        id < self.data@.len(),
                        found == exists|j: int| 0 <= j < k && sel0[j] == id,
                        new_sel@ + sel_without(sel0.skip(k as int), id) == sel_without(
                            sel0,
                            id,
                        ),
                        forall|j: int|
                            0 <= j < new_sel@.len() ==> #[trigger] new_sel@[j]
                                < self.data@.len(),
                    decreases n - k,
                {
                    proof {
                        let sk = sel0.skip(k as int);
                        assert(sk[0] == sel0[k as int]);
                        assert(sk.drop_first() =~= sel0.skip(k as int + 1));
                    }
                    let ghost new_sel0 = new_sel@;
                    let s = self.selection[k];
                    if s != id {
                        new_sel.push(s);
                        proof {
                            assert(new_sel@ + sel_without(sel0.skip(k as int + 1), id)
                                =~= new_sel0 + sel_without(sel0.skip(k as int), id));
                        }
                    } else {
                        found = true;
                    }
                    k += 1;
                }
                proof {
                    assert(sel0.skip(n as int).len() == 0);
                    assert(new_sel@ =~= new_sel@ + sel_without(sel0.skip(n as int), id));
                    assert(found == sel0.contains(id)) by {
                        if sel0.contains(id) {
                            let w = choose|j: int| 0 <= j < sel0.len() && sel0[j] == id;
                            assert(0 <= w < n && sel0[w] == id);
                        }
                    }
                }
                if !found {
                    new_sel.push(id);
                }
                let ghost focus0 = self.focus;
                let ghost cap0 = self.captured;
                self.set_selection(new_sel);
                proof {
                    assert(self.focus == focus0);
                    assert(self.captured == cap0);
                    assert(self.selection@ == toggle_spec(sel0, id));
                }
            } else {
                let mut only: Vec<usize> = Vec::new();
                only.push(id);
                self.set_selection(only);
                proof {
                    assert(self.selection@ =~= seq![id]);
                }
            }
            return ;
        }
        // a real move: nudge the selection if the dragged point is in it,
        // otherwise just the dragged point
        if vec_contains(&self.selection, id) {
            let ghost target = commit_fold(
                d0,
                sel0,
                sel0.len() as int,
                dx@,
                dy_steps as int,
                meta,
            );
            let n = self.selection.len();
            let mut k: usize = 0;
            while k < n
                invariant
                    0 <= k <= n,
                    self.wf(),
                    n == self.selection@.len(),
                    self.data@.len() == old(self).data@.len(),
                    self.focus == old(self).focus,
                    self.captured == old(self).captured,
                    (self.data@, self.selection@) == commit_fold(
                        d0,
                        sel0,
                        k as int,
                        dx@,
                        dy_steps as int,
                        meta,
                    ),
                decreases n - k,
            {
                let idx = self.selection[k];
                let _ = self.nudge_point(idx, dx, dy_steps, meta);
                k += 1;
            }
        } else {
            let _ = self.nudge_point(id, dx, dy_steps, meta);
        }
    }

    /// Feeds one pointer event through the focus state machine, per the
    /// transition table: entering hovers the plane; moving re-resolves the
    /// hover or advances a drag; a primary press starts a point move, an
    /// add drag (meta), a marquee selection (shift) or a pan, capturing the
    /// pointer; release commits and releases; leaving without a capture goes
    /// idle. Only a release can change the points or the selection.
    pub fn handle_pointer(&mut self, ev: &PointerEvent)
        requires
            old(self).wf(),
        ensures
            final(self).wf(),
            ev.kind is Enter && old(self).focus is Idle ==> final(self).focus is HoverPlane,
            ev.kind is Leave && !old(self).captured ==> final(self).focus is Idle
                && !(final(self).captured),
            ev.kind is Down && old(self).focus is HoverPoint ==> final(self).focus is MovePoint
                && final(self).captured,
            ev.kind is Down && old(self).focus is HoverPlane ==> final(self).captured && (if ev.meta {
                final(self).focus is AddDrag
            } else if ev.shift {
                final(self).focus is SelectArea
            } else {
                final(self).focus is PanPlane
            }),
            ev.kind is Up ==> !(final(self).captured),
            ev.kind is Up && old(self).focus is MovePoint && old(self).focus->MovePoint_id < old(
                self,
            ).data@.len() ==> final(self).focus is HoverPlane && (
            final(self).data@,
            final(self).selection@,
            ) == commit_spec(
                old(self).data@,
                old(self).selection@,
                old(self).focus->MovePoint_id,
                drag_dx_spec(
                    old(self).focus->MovePoint_anchor_x,
                    old(self).focus->MovePoint_cur_x,
                    old(self).snap_step,
                ),
                drag_dy_spec(
                    old(self).focus->MovePoint_anchor_y,
                    old(self).focus->MovePoint_cur_y,
                ),
                ev.meta,
                ev.shift,
            ),
            ev.kind is Up && old(self).focus is SelectArea ==> final(self).focus is HoverPlane
                && final(self).data@ == old(self).data@ && ({
                let ax = old(self).focus->SelectArea_anchor_x@;
                let ay = old(self).focus->SelectArea_anchor_y@;
                let cx = old(self).focus->SelectArea_cur_x@;
                let cy = old(self).focus->SelectArea_cur_y@;
                final(self).selection@ == hit_indices(
                    old(self).data@,
                    if ax <= cx { ax } else { cx },
                    if ay <= cy { ay } else { cy },
                    if ax >= cx { ax } else { cx },
                    if ay >= cy { ay } else { cy },
                    old(self).data@.len() as int,
                )
            }),
            ev.kind is Up && old(self).focus is AddDrag && old(self).data@.len() + 1
                < usize::MAX ==> final(self).data@.len() == old(self).data@.len() + 1 && ({
                let p = P::create_spec(
                    add_drag_x_spec(old(self).focus->AddDrag_cur_x, old(self).snap_step),
                    add_drag_y_spec(old(self).focus->AddDrag_cur_y),
                );
                final(self).data@ == old(self).data@.insert(
                    insert_pos(old(self).data@, p.key()),
                    p,
                )
            }),
            !(ev.kind is Up) ==> final(self).data@ == old(self).data@
                && final(self).selection@ == old(self).selection@
                && final(self).done@ == old(self).done@
                && final(self).undone@ == old(self).undone@,
    {
        match ev.kind {
            PointerEventKind::Enter => {
                match self.focus {
                    Focus::Idle => {
                        self.focus = Focus::HoverPlane;
                        self.redraw = true;
                    },
                    _ => {},
                }
            },
            PointerEventKind::Moved => {
                match self.focus {
                    Focus::HoverPlane | Focus::HoverPoint { .. } => {
                        match self.find_hit(ev.x, ev.y) {
                            Some(i) => {
                                self.focus = Focus::HoverPoint { id: i };
                            },
                            None => {
                                self.focus = Focus::HoverPlane;
                            },
                        }
                        self.redraw = true;
                    },
                    Focus::PanPlane { last_x, last_y } => {
                        let nx = self.offset_x.sat_add(last_x.sat_sub(ev.x)).max(
                            self.offset_x_min,
                        );
                        let ny = self.offset_y.sat_add(last_y.sat_sub(ev.y)).max(
                            self.offset_y_min,
                        ).min(self.offset_y_max);
                        self.offset_x = nx;
                        self.offset_y = ny;
                        self.focus = Focus::PanPlane { last_x: ev.x, last_y: ev.y };
                        self.redraw = true;
                    },
                    Focus::MovePoint { id, anchor_x, anchor_y, .. } => {
                        self.focus = Focus::MovePoint {
                            id,
                            anchor_x,
                            anchor_y,
                            cur_x: ev.x,
                            cur_y: ev.y,
                        };
                        self.redraw = true;
                    },
                    Focus::AddDrag { .. } => {
                        self.focus = Focus::AddDrag { cur_x: ev.x, cur_y: ev.y };
                        self.redraw = true;
                    },
                    Focus::SelectArea { anchor_x, anchor_y, .. } => {
                        self.focus = Focus::SelectArea {
                            anchor_x,
                            anchor_y,
                            cur_x: ev.x,
                            cur_y: ev.y,
                        };
                        self.redraw = true;
                    },
                    Focus::Idle => {},
                }
            },
            PointerEventKind::Down => {
                match self.focus {
                    Focus::HoverPoint { id } => {
                        self.focus = Focus::MovePoint {
                            id,
                            anchor_x: ev.x,
                            anchor_y: ev.y,
                            cur_x: ev.x,
                            cur_y: ev.y,
                        };
                        self.captured = true;
                        self.redraw = true;
                    },
                    Focus::HoverPlane => {
                        if ev.meta {
                            self.focus = Focus::AddDrag { cur_x: ev.x, cur_y: ev.y };
                        } else if ev.shift {
                            self.focus = Focus::SelectArea {
                                anchor_x: ev.x,
                                anchor_y: ev.y,
                                cur_x: ev.x,
                                cur_y: ev.y,
                            };
                        } else {
                            self.focus = Focus::PanPlane { last_x: ev.x, last_y: ev.y };
                        }
                        self.captured = true;
                        self.redraw = true;
                    },
                    _ => {},
                }
            },
            PointerEventKind::Up => {
                let focus = self.focus;
                self.captured = false;
                match focus {
                    Focus::MovePoint { id, anchor_x, anchor_y, cur_x, cur_y } => {
                        self.focus = Focus::HoverPlane;
                        if id < self.data.len() {
                            let dx = cur_x.sat_sub(anchor_x).max(
                                R64::from_units(-i64::MAX),
                            ).snap_to_step(self.snap_step);
                            let dy_steps = cur_y.sat_sub(anchor_y).max(
                                R64::from_units(-i64::MAX),
                            ).trunc_units();
                            proof {
                                assert(dx@ == drag_dx_spec(anchor_x, cur_x, self.snap_step));
                                assert(dy_steps as int == drag_dy_spec(anchor_y, cur_y));
                            }
                            self.commit_move(id, dx, dy_steps, ev.meta, ev.shift);
                        }
                        self.redraw = true;
                    },
                    Focus::AddDrag { cur_x, cur_y } => {
                        self.focus = Focus::HoverPlane;
                        if self.data.len() + 1 < usize::MAX {
                            let x = cur_x.max(R64::from_units(-i64::MAX)).snap_to_step(
                                self.snap_step,
                            ).max(R64::zero());
                            let y_steps = cur_y.max(R64::from_units(-i64::MAX)).trunc_units();
                            proof {
                                assert(x@ == add_drag_x_spec(cur_x, self.snap_step));
                                assert(y_steps as int == add_drag_y_spec(cur_y));
                            }
                            let p = P::create(x, y_steps);
                            let ghost created = p;
                            let ghost pdata = self.data@;
                            let _ = self.add_point(p);
                            proof {
                                lemma_insert_pos_bounds(pdata, created.key());
                            }
                        }
                        self.redraw = true;
                    },
                    Focus::SelectArea { anchor_x, anchor_y, cur_x, cur_y } => {
                        self.focus = Focus::HoverPlane;
                        let x0 = anchor_x.min(cur_x);
                        let x1 = anchor_x.max(cur_x);
                        let y0 = anchor_y.min(cur_y);
                        let y1 = anchor_y.max(cur_y);
                        let mut sel: Vec<usize> = Vec::new();
                        let mut i: usize = 0;
                        while i < self.data.len()
                            invariant
                                0 <= i <= self.data@.len(),
                                self.wf(),
                                sel@ == hit_indices(self.data@, x0@, y0@, x1@, y1@, i as int),
                                forall|j: int|
                                    0 <= j < sel@.len() ==> #[trigger] sel@[j]
                                        < self.data@.len(),
                            decreases self.data@.len() - i,
                        {
                            if self.data[i].in_hitbox(x0, y0, x1, y1) {
                                sel.push(i);
                            }
                            i += 1;
                        }
                        self.set_selection(sel);
                        self.redraw = true;
                    },
                    Focus::PanPlane { .. } => {
                        self.focus = Focus::HoverPlane;
                    },
                    _ => {},
                }
            },
            PointerEventKind::Leave => {
                if !self.captured {
                    self.focus = Focus::Idle;
                    self.redraw = true;
                }
            },
        }
    }

    /// Cancels any drag in progress: the pointer capture is released and the
    /// focus goes idle. Since drags only touch the points when they commit,
    /// there is nothing to roll back.
    pub fn handle_escape(&mut self)
        requires
            old(self).wf(),
        ensures
            final(self).wf(),
            final(self).focus is Idle,
            !final(self).captured,
            final(self).data@ == old(self).data@,
            final(self).selection@ == old(self).selection@,
    {
        self.focus = Focus::Idle;
        self.captured = false;
        self.redraw = true;
    }

    /// Reverses the most recent action, restoring the data and selection it
    /// fired on, and moves it to the redo stack. Returns whether anything was
    /// undone; when nothing was, the editor is unchanged. The pointer focus
    /// is released, since the point under it may be gone.
    pub fn undo(&mut self) -> (r: bool)
        requires
            old(self).wf(),
        ensures
            final(self).wf(),
            r == (old(self).done@.len() > 0),
            !r ==> *final(self) == *old(self),
            r ==> {
                let a = old(self).done@.last();
                &&& final(self).data@ == unapply_data(a, old(self).data@)
                &&& final(self).selection@ == unapply_sel(a)
                &&& final(self).done@ == old(self).done@.drop_last()
                &&& final(self).undone@ == old(self).undone@.push(a)
            },
    {
        if self.done.len() == 0 {
            return false;
        }
        let ghost d0 = self.data@;
        let a = self.done.pop().unwrap();
        proof {
            assert(a == old(self).done@.last());
            assert(self.done@ =~= old(self).done@.drop_last());
        }
        let ghost d1 = unapply_data(a, d0);
        let ghost sel1 = unapply_sel(a);
        proof {
            assert(action_applies(a, d1, sel1));
            assert(apply_data(a, d1) == d0);
        }
        match &a {
            EditorAction::AddPoint { index, point, .. } => {
                proof {
                    assert(d0.len() == d1.len() + 1);
                }
                let _ = self.data.remove(*index);
            },
            EditorAction::RemovePoints { ids, points, .. } => {
                proof {
                    lemma_remove_ids_len(d1, ids@);
                    assert(d1.len() == d0.len() + ids@.len());
                    assert(wf_state(d1, sel1));
                    assert(d1.len() < usize::MAX);
                }
                insert_points_at(&mut self.data, ids, points);
            },
            EditorAction::ReplacePoint { from, to, before, .. } => {
                proof {
                    assert(d0 == d1.remove(*from as int).insert(*to as int, a->ReplacePoint_after));
                    assert(d0.len() == d1.len());
                }
                let _ = self.data.remove(*to);
                self.data.insert(*from, before.duplicate());
            },
            EditorAction::SetSelection { .. } => {},
        }
        let new_sel = match &a {
            EditorAction::AddPoint { sel_before, .. } => copy_indices(sel_before),
            EditorAction::RemovePoints { sel_before, .. } => copy_indices(sel_before),
            EditorAction::ReplacePoint { sel_before, .. } => copy_indices(sel_before),
            EditorAction::SetSelection { sel_before, .. } => copy_indices(sel_before),
        };
        self.selection = new_sel;
        self.undone.push(a);
        self.focus = Focus::Idle;
        self.captured = false;
        proof {
            assert(self.data@ == d1);
            assert(self.selection@ == sel1);
            assert(self.undone@.last() == a);
            assert(self.undone@.drop_last() =~= old(self).undone@);
            assert(redoable(self.data@, self.selection@, self.undone@));
        }
        true
    }

    /// Replays the most recently undone action and moves it back to the undo
    /// stack. Returns whether anything was redone; when nothing was, the
    /// editor is unchanged. The pointer focus is released.
    pub fn redo(&mut self) -> (r: bool)
        requires
            old(self).wf(),
        ensures
            final(self).wf(),
            r == (old(self).undone@.len() > 0),
            !r ==> *final(self) == *old(self),
            r ==> {
                let a = old(self).undone@.last();
                &&& final(self).data@ == apply_data(a, old(self).data@)
                &&& final(self).selection@ == apply_sel(a)
                &&& final(self).undone@ == old(self).undone@.drop_last()
                &&& final(self).done@ == old(self).done@.push(a)
            },
    {
        if self.undone.len() == 0 {
            return false;
        }
        let ghost d0 = self.data@;
        let ghost sel0 = self.selection@;
        let a = self.undone.pop().unwrap();
        proof {
            assert(a == old(self).undone@.last());
            assert(self.undone@ =~= old(self).undone@.drop_last());
            assert(action_applies(a, d0, sel0));
            assert(wf_state(apply_data(a, d0), apply_sel(a)));
        }
        match &a {
            EditorAction::AddPoint { index, point, .. } => {
                self.data.insert(*index, point.duplicate());
            },
            EditorAction::RemovePoints { ids, points, .. } => {
                proof {
                    lemma_remove_ids_len(d0, ids@);
                }
                remove_points_at(&mut self.data, ids);
            },
            EditorAction::ReplacePoint { from, to, after, .. } => {
                let _ = self.data.remove(*from);
                self.data.insert(*to, after.duplicate());
            },
            EditorAction::SetSelection { .. } => {},
        }
        let new_sel = match &a {
            EditorAction::AddPoint { sel_after, .. } => copy_indices(sel_after),
            EditorAction::RemovePoints { sel_after, .. } => copy_indices(sel_after),
            EditorAction::ReplacePoint { sel_after, .. } => copy_indices(sel_after),
            EditorAction::SetSelection { sel_after, .. } => copy_indices(sel_after),
        };
        self.selection = new_sel;
        proof {
            lemma_action_round_trip(a, d0, sel0);
        }
        self.done.push(a);
        self.focus = Focus::Idle;
        self.captured = false;
        proof {
            assert(self.data@ == apply_data(a, d0));
            assert(self.selection@ == apply_sel(a));
            assert(self.done@.last() == a);
            assert(self.done@.drop_last() =~= old(self).done@);
            assert(undoable(self.data@, self.selection@, self.done@));
        }
        true
    }
}

} // verus!
