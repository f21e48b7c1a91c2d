//! The editor core: numbered point sequences, the current selection, and a
//! bounded undo history. Nothing here knows about rendering or input devices.
use vstd::prelude::*;

use crate::model::ColorStyle;
use crate::text::{decimal_digits, owned_string, push_unsigned};

verus! {

/// A position in image space. The editor stores and moves positions but never
/// computes with their coordinates.
#[verifier::external_type_specification]
#[verifier::external_body]
pub struct ExPos2(egui::Pos2);

/// Number of snapshots the undo history keeps at most.
pub const UNDO_LIMIT: usize = 100;

/// Bit pattern of the `f32` value 3.0, the line thickness of a new sequence.
pub const DEFAULT_LINE_THICKNESS_BITS: u32 = 0x4040_0000;

/// A single editable point inside a sequence.
#[derive(Clone, Copy)]
pub struct SequencePoint {
    /// Point position in image space.
    pub position: egui::Pos2,
    /// Numeric label of this point.
    pub value: i32,
}

/// An editable sequence of numbered points.
#[derive(Clone)]
pub struct SequenceItem {
    /// Human-readable sequence name.
    pub name: String,
    /// Whether this sequence is currently shown.
    pub visible: bool,
    /// Display color of the sequence.
    pub color: ColorStyle,
    /// Thickness of the rendered line segments, as the bit pattern of an `f32`.
    pub line_thickness_bits: u32,
    /// First numeric value of the sequence.
    pub start_value: i32,
    /// All points that belong to this sequence, in drawing order.
    pub points: Vec<SequencePoint>,
}

/// The mathematical content of a [`SequenceItem`].
pub struct SequenceItemView {
    pub name: Seq<char>,
    pub visible: bool,
    pub color: ColorStyle,
    pub line_thickness_bits: u32,
    pub start_value: i32,
    pub points: Seq<SequencePoint>,
}

impl SequenceItemView {
    /// The same sequence with other points.
    pub open spec fn with_points(self, points: Seq<SequencePoint>) -> SequenceItemView {
        SequenceItemView { points, ..self }
    }
}

impl View for SequenceItem {
    type V = SequenceItemView;

    open spec fn view(&self) -> SequenceItemView {
        SequenceItemView {
            name: self.name@,
            visible: self.visible,
            color: self.color,
            line_thickness_bits: self.line_thickness_bits,
            start_value: self.start_value,
            points: self.points@,
        }
    }
}

/// The views of a list of sequences.
pub open spec fn items_view(items: Seq<SequenceItem>) -> Seq<SequenceItemView> {
    items.map_values(|item: SequenceItem| item@)
}

/// A copy of the editable state, kept for undo.
pub struct EditorSnapshot {
    pub sequences: Vec<SequenceItem>,
    pub selected_sequence: Option<usize>,
    pub selected_point: Option<usize>,
}

/// The mathematical content of an [`EditorSnapshot`].
pub struct SnapshotView {
    pub sequences: Seq<SequenceItemView>,
    pub selected_sequence: Option<usize>,
    pub selected_point: Option<usize>,
}

impl View for EditorSnapshot {
    type V = SnapshotView;

    open spec fn view(&self) -> SnapshotView {
        SnapshotView {
            sequences: items_view(self.sequences@),
            selected_sequence: self.selected_sequence,
            selected_point: self.selected_point,
        }
    }
}

/// The undo history after recording `snapshot`: the newest entry is last, and
/// the oldest one is dropped once the history would exceed [`UNDO_LIMIT`].
pub open spec fn history_after_push(history: Seq<SnapshotView>, snapshot: SnapshotView) -> Seq<
    SnapshotView,
> {
    if history.len() + 1 > UNDO_LIMIT {
        history.push(snapshot).drop_first()
    } else {
        history.push(snapshot)
    }
}

/// Whether `r` is the error with the text `message`.
pub open spec fn is_error<T>(r: Result<T, &str>, message: &str) -> bool {
    r matches Err(e) && e@ == message@
}

/// The sequence that a new project starts with, and that "add sequence"
/// appends apart from its name.
pub open spec fn fresh_sequence(name: Seq<char>) -> SequenceItemView {
    SequenceItemView {
        name,
        visible: true,
        color: ColorStyle { r: 120, g: 180, b: 255, a: 255 },
        line_thickness_bits: DEFAULT_LINE_THICKNESS_BITS,
        start_value: 1,
        points: Seq::empty(),
    }
}

/// `base + offset`, with the offset converted to `i32` as `as` converts it.
pub open spec fn shifted(base: i32, offset: int) -> int {
    base + (offset as i32)
}

/// Whether `v` is an `i32` value.
pub open spec fn fits_i32(v: int) -> bool {
    i32::MIN <= v <= i32::MAX
}

/// Point `i` numbered `start + i`; positions unchanged.
pub open spec fn renumbered_from_start(points: Seq<SequencePoint>, start: i32) -> Seq<
    SequencePoint,
> {
    Seq::new(
        points.len(),
        |i: int| SequencePoint { position: points[i].position, value: shifted(start, i) as i32 },
    )
}

/// Whether every number that renumbering from `start` produces is an `i32`.
pub open spec fn can_renumber_from_start(points: Seq<SequencePoint>, start: i32) -> bool {
    forall|i: int| 0 <= i < points.len() ==> fits_i32(#[trigger] shifted(start, i))
}

/// Points after index `p` numbered on from the value of point `p`; the rest unchanged.
pub open spec fn renumbered_after(points: Seq<SequencePoint>, p: int) -> Seq<SequencePoint> {
    Seq::new(
        points.len(),
        |i: int|
            if i <= p {
                points[i]
            } else {
                SequencePoint {
                    position: points[i].position,
                    value: shifted(points[p].value, i - p) as i32,
                }
            },
    )
}

/// Whether every number that renumbering after `p` produces is an `i32`.
pub open spec fn can_renumber_after(points: Seq<SequencePoint>, p: int) -> bool {
    forall|i: int| p < i < points.len() ==> fits_i32(#[trigger] shifted(points[p].value, i - p))
}

/// `post` recorded the sequences and selection of `pre` as its newest undo snapshot.
pub open spec fn records_undo(pre: EditorState, post: EditorState) -> bool {
    post.history() == history_after_push(pre.history(), pre.snapshot())
}

impl SequenceItem {
    /// An independent copy of this sequence.
    pub fn duplicate(&self) -> (r: SequenceItem)
        ensures
            r@ == self@,
    {
        SequenceItem {
            name: self.name.clone(),
            visible: self.visible,
            color: self.color,
            line_thickness_bits: self.line_thickness_bits,
            start_value: self.start_value,
            points: copy_points(&self.points),
        }
    }

    /// A new empty, visible sequence in the default color and thickness.
    pub fn fresh(name: String) -> (r: SequenceItem)
        ensures
            r@ == fresh_sequence(name@),
    {
        SequenceItem {
            name,
            visible: true,
            color: ColorStyle::from_rgb(120, 180, 255),
            line_thickness_bits: DEFAULT_LINE_THICKNESS_BITS,
            start_value: 1,
            points: Vec::new(),
        }
    }
}

/// A copy of a list of points.
pub fn copy_points(points: &Vec<SequencePoint>) -> (r: Vec<SequencePoint>)
    ensures
        r@ == points@,
{
    let mut r: Vec<SequencePoint> = Vec::new();
    let n = points.len();
    let mut i: usize = 0;
    while i < n
        invariant
            i <= n,
            n == points.len(),
            r@ == points@.take(i as int),
        decreases n - i,
    {
        r.push(points[i]);
        assert(points@.take(i + 1) =~= points@.take(i as int).push(points@[i as int]));
        i = i + 1;
    }
    assert(points@.take(n as int) =~= points@);
    r
}

/// An independent copy of a list of sequences.
pub fn duplicate_items(items: &Vec<SequenceItem>) -> (r: Vec<SequenceItem>)
    ensures
        items_view(r@) == items_view(items@),
{
    let mut r: Vec<SequenceItem> = Vec::new();
    let n = items.len();
    let mut i: usize = 0;
    while i < n
        invariant
            i <= n,
            n == items.len(),
            r@.len() == i,
            forall|k: int| 0 <= k < i ==> #[trigger] r@[k]@ == items@[k]@,
        decreases n - i,
    {
        let copy = items[i].duplicate();
        r.push(copy);
        i = i + 1;
    }
    assert(items_view(r@) =~= items_view(items@));
    r
}

/// GUI-independent editor state: project metadata, sequences, selection,
/// undo history and the unsaved-changes flag.
pub struct EditorState {
    /// Editable project name.
    pub project_name: String,
    /// Where the image or idea came from.
    pub origin_url: String,
    /// Free-text comment for the whole project.
    pub comment: String,
    /// All editable sequences.
    pub sequences: Vec<SequenceItem>,
    /// Current sequence selection.
    pub selected_sequence: Option<usize>,
    /// Current point selection inside the selected sequence.
    pub selected_point: Option<usize>,
    /// When true, the view should scroll the selected point into sight.
    pub scroll_selected_point_into_view: bool,
    /// Currently dragged point as (sequence index, point index).
    pub dragged_point: Option<(usize, usize)>,
    /// Undo history, newest snapshot last.
    pub undo_stack: Vec<EditorSnapshot>,
    /// Whether there are unsaved changes.
    pub has_unsaved_changes: bool,
}

impl EditorState {
    /// The views of all sequences.
    pub open spec fn sequences_view(&self) -> Seq<SequenceItemView> {
        items_view(self.sequences@)
    }

    /// The views of the undo history, oldest first.
    pub open spec fn history(&self) -> Seq<SnapshotView> {
        self.undo_stack@.map_values(|s: EditorSnapshot| s@)
    }

    /// What an undo snapshot taken now would hold.
    pub open spec fn snapshot(&self) -> SnapshotView {
        SnapshotView {
            sequences: self.sequences_view(),
            selected_sequence: self.selected_sequence,
            selected_point: self.selected_point,
        }
    }

    /// Project name, origin URL and comment are the same in both states.
    pub open spec fn same_metadata(&self, other: &EditorState) -> bool {
        &&& self.project_name@ == other.project_name@
        &&& self.origin_url@ == other.origin_url@
        &&& self.comment@ == other.comment@
    }

    /// The index of the selected sequence, when it names an existing sequence.
    pub open spec fn valid_selection(&self) -> Option<usize> {
        match self.selected_sequence {
            Some(i) => if i < self.sequences@.len() {
                Some(i)
            } else {
                None
            },
            None => None,
        }
    }

    /// What `undo` does to `pre`, giving `post` and the result `applied`.
    pub open spec fn undo_outcome(pre: EditorState, post: EditorState, applied: bool) -> bool {
        if pre.undo_stack@.len() == 0 {
            &&& !applied
            &&& post == pre
        } else {
            &&& applied
            &&& post.history() == pre.history().drop_last()
            &&& post.snapshot() == pre.history().last()
            &&& post.dragged_point == None::<(usize, usize)>
            &&& post.same_metadata(&pre)
            &&& post.scroll_selected_point_into_view == pre.scroll_selected_point_into_view
            &&& post.has_unsaved_changes == pre.has_unsaved_changes
        }
    }

    /// The state of a new, empty project.
    pub open spec fn is_new_project(&self) -> bool {
        &&& self.project_name@ == "Untitled Project"@
        &&& self.origin_url@ == Seq::<char>::empty()
        &&& self.comment@ == Seq::<char>::empty()
        &&& self.sequences_view() == seq![fresh_sequence("Sequence 1"@)]
        &&& self.selected_sequence == Some(0usize)
        &&& self.selected_point == None::<usize>
        &&& self.scroll_selected_point_into_view == false
        &&& self.dragged_point == None::<(usize, usize)>
        &&& self.undo_stack@.len() == 0
        &&& self.has_unsaved_changes == false
    }

    /// Reset the editor to a new empty project.
    pub fn new_project(&mut self)
        ensures
            final(self).is_new_project(),
    {
        *self = EditorState::default();
    }

    /// Save the current sequences and selection so that `undo` can restore them.
    pub fn push_undo_snapshot(&mut self)
        ensures
            final(self).history() == history_after_push(old(self).history(), old(self).snapshot()),
            final(self).sequences_view() == old(self).sequences_view(),
            final(self).selected_sequence == old(self).selected_sequence,
            final(self).selected_point == old(self).selected_point,
            final(self).scroll_selected_point_into_view == old(self).scroll_selected_point_into_view,
            final(self).dragged_point == old(self).dragged_point,
            final(self).has_unsaved_changes == old(self).has_unsaved_changes,
            final(self).same_metadata(old(self)),
            final(self).sequences@ == old(self).sequences@,
    {
        let snapshot = EditorSnapshot {
            sequences: duplicate_items(&self.sequences),
            selected_sequence: self.selected_sequence,
            selected_point: self.selected_point,
        };
        assert(snapshot@ == self.snapshot());
        self.undo_stack.push(snapshot);
        assert(self.history() =~= old(self).history().push(old(self).snapshot()));
        if self.undo_stack.len() > UNDO_LIMIT {
            self.undo_stack.remove(0);
            assert(self.history() =~= old(self).history().push(old(self).snapshot()).drop_first());
        }
    }

    /// Restore the most recent snapshot. Returns `true` when an undo step was
    /// applied and `false` when the history was empty.
    pub fn undo(&mut self) -> (applied: bool)
        ensures
            EditorState::undo_outcome(*old(self), *final(self), applied),
    {
        if self.undo_stack.len() == 0 {
            return false;
        }
        let last = self.undo_stack.len() - 1;
        let snapshot = self.undo_stack.remove(last);
        assert(self.history() =~= old(self).history().drop_last());
        self.sequences = snapshot.sequences;
        self.selected_sequence = snapshot.selected_sequence;
        self.selected_point = snapshot.selected_point;
        self.dragged_point = None;
        true
    }

    /// Mark the current project state as modified.
    pub fn mark_dirty(&mut self)
        ensures
            *final(self) == (EditorState { has_unsaved_changes: true, ..*old(self) }),
    {
        self.has_unsaved_changes = true;
    }

    /// Mark the current project state as saved.
    pub fn clear_dirty(&mut self)
        ensures
            *final(self) == (EditorState { has_unsaved_changes: false, ..*old(self) }),
    {
        self.has_unsaved_changes = false;
    }
}

impl EditorState {
    /// The index of the selected point, when both the selected sequence and
    /// the selected point exist.
    pub open spec fn valid_point(&self) -> Option<usize> {
        match (self.valid_selection(), self.selected_point) {
            (Some(i), Some(p)) => if p < self.sequences_view()[i as int].points.len() {
                Some(p)
            } else {
                None
            },
            _ => None,
        }
    }

    /// The selected sequence; meaningful when `valid_selection()` is `Some`.
    pub open spec fn selected_item(&self) -> SequenceItemView {
        self.sequences_view()[self.selected_sequence.unwrap() as int]
    }

    /// Add a point at `image_pos` to the end of the selected sequence. Its
    /// number is the sequence's start value plus the number of points it
    /// already has. Returns that number and the sequence name.
    pub fn add_point_to_selected_sequence(&mut self, image_pos: egui::Pos2) -> (r: Result<
        (i32, String),
        &'static str,
    >)
        requires
            old(self).valid_selection() is Some ==> fits_i32(
                shifted(
                    old(self).selected_item().start_value,
                    old(self).selected_item().points.len() as int,
                ),
            ),
        ensures
            old(self).selected_sequence is None ==> is_error(r, "No sequence selected")
                && *final(self) == *old(self),
            old(self).selected_sequence is Some && old(self).valid_selection() is None ==> is_error(
                r,
                "Selected sequence is invalid",
            ) && *final(self) == *old(self),
            old(self).valid_selection() matches Some(i) ==> {
                let item = old(self).selected_item();
                let value = shifted(item.start_value, item.points.len() as int) as i32;
                &&& r matches Ok((v, name)) && v == value && name@ == item.name
                &&& final(self).sequences_view() == old(self).sequences_view().update(
                    i as int,
                    item.with_points(
                        item.points.push((SequencePoint { position: image_pos, value })),
                    ),
                )
                &&& records_undo(*old(self), *final(self))
                &&& final(self).selected_sequence == old(self).selected_sequence
                &&& final(self).selected_point == Some(item.points.len() as usize)
                &&& final(self).scroll_selected_point_into_view
                &&& final(self).has_unsaved_changes
                &&& final(self).dragged_point == old(self).dragged_point
                &&& final(self).same_metadata(old(self))
            },
    {
        let idx = match self.selected_sequence {
            None => {
                return Err("No sequence selected");
            },
            Some(i) => i,
        };
        if idx >= self.sequences.len() {
            return Err("Selected sequence is invalid");
        }
        let start = self.sequences[idx].start_value;
        let count = self.sequences[idx].points.len();
        let point_value = start + (count as i32);
        self.push_undo_snapshot();
        let mut item = self.sequences[idx].duplicate();
        item.points.push(SequencePoint { position: image_pos, value: point_value });
        let new_len = item.points.len();
        let name = item.name.clone();
        let ghost item_view = item@;
        self.sequences.set(idx, item);
        assert(self.sequences_view() =~= old(self).sequences_view().update(idx as int, item_view));
        self.selected_point = Some(new_len - 1);
        self.scroll_selected_point_into_view = true;
        self.mark_dirty();
        Ok((point_value, name))
    }

    /// Renumber all points of the selected sequence: point `i` gets the start
    /// value plus `i`. Returns the sequence name and its start value.
    pub fn renumber_selected_sequence_from_start(&mut self) -> (r: Result<(String, i32), &'static str>)
        requires
            old(self).valid_selection() is Some ==> can_renumber_from_start(
                old(self).selected_item().points,
                old(self).selected_item().start_value,
            ),
        ensures
            old(self).selected_sequence is None ==> is_error(r, "No sequence selected")
                && *final(self) == *old(self),
            old(self).selected_sequence is Some && old(self).valid_selection() is None ==> is_error(
                r,
                "Selected sequence is invalid",
            ) && *final(self) == *old(self),
            old(self).valid_selection() matches Some(i) ==> {
                let item = old(self).selected_item();
                &&& r matches Ok((name, start)) && name@ == item.name && start == item.start_value
                &&& final(self).sequences_view() == old(self).sequences_view().update(
                    i as int,
                    item.with_points(renumbered_from_start(item.points, item.start_value)),
                )
                &&& records_undo(*old(self), *final(self))
                &&& final(self).selected_sequence == old(self).selected_sequence
                &&& final(self).selected_point == old(self).selected_point
                &&& final(self).scroll_selected_point_into_view
                    == old(self).scroll_selected_point_into_view
                &&& final(self).has_unsaved_changes
                &&& final(self).dragged_point == old(self).dragged_point
                &&& final(self).same_metadata(old(self))
            },
    {
        let idx = match self.selected_sequence {
            None => {
                return Err("No sequence selected");
            },
            Some(i) => i,
        };
        if idx >= self.sequences.len() {
            return Err("Selected sequence is invalid");
        }
        let name = self.sequences[idx].name.clone();
        let start = self.sequences[idx].start_value;
        self.push_undo_snapshot();
        let mut item = self.sequences[idx].duplicate();
        let ghost original = item@;
        let n = item.points.len();
        let mut k: usize = 0;
        while k < n
            invariant
                k <= n,
                n == original.points.len(),
                start == original.start_value,
                can_renumber_from_start(original.points, start),
                item@.points.len() == n,
                item@ == original.with_points(item@.points),
                forall|j: int|
                    0 <= j < k ==> #[trigger] item@.points[j] == renumbered_from_start(
                        original.points,
                        start,
                    )[j],
                forall|j: int| k <= j < n ==> #[trigger] item@.points[j] == original.points[j],
            decreases n - k,
        {
            assert(fits_i32(shifted(start, k as int)));
            let position = item.points[k].position;
            item.points.set(k, SequencePoint { position, value: start + (k as i32) });
            k = k + 1;
        }
        assert(item@.points =~= renumbered_from_start(original.points, start));
        let ghost item_view = item@;
        self.sequences.set(idx, item);
        assert(self.sequences_view() =~= old(self).sequences_view().update(idx as int, item_view));
        self.mark_dirty();
        Ok((name, start))
    }

    /// Renumber the points after the selected point so that they continue
    /// from its value. Returns the sequence name and the selected point index.
    pub fn renumber_selected_point_and_following(&mut self) -> (r: Result<
        (String, usize),
        &'static str,
    >)
        requires
            old(self).valid_point() matches Some(p) ==> can_renumber_after(
                old(self).selected_item().points,
                p as int,
            ),
        ensures
            old(self).selected_sequence is None ==> is_error(r, "No sequence selected")
                && *final(self) == *old(self),
            old(self).selected_sequence is Some && old(self).selected_point is None ==> is_error(
                r,
                "No point selected",
            ) && *final(self) == *old(self),
            old(self).selected_sequence is Some && old(self).selected_point is Some && old(
                self,
            ).valid_selection() is None ==> is_error(r, "Selected sequence is invalid")
                && *final(self) == *old(self),
            old(self).valid_selection() is Some && old(self).selected_point is Some && old(
                self,
            ).valid_point() is None ==> is_error(r, "Selected point is invalid") && *final(self)
                == *old(self),
            old(self).valid_point() matches Some(p) ==> {
                let item = old(self).selected_item();
                &&& r matches Ok((name, index)) && name@ == item.name && index == p
                &&& final(self).sequences_view() == old(self).sequences_view().update(
                    old(self).selected_sequence.unwrap() as int,
                    item.with_points(renumbered_after(item.points, p as int)),
                )
                &&& records_undo(*old(self), *final(self))
                &&& final(self).selected_sequence == old(self).selected_sequence
                &&& final(self).selected_point == old(self).selected_point
                &&& final(self).scroll_selected_point_into_view
                    == old(self).scroll_selected_point_into_view
                &&& final(self).has_unsaved_changes
                &&& final(self).dragged_point == old(self).dragged_point
                &&& final(self).same_metadata(old(self))
            },
    {
        let idx = match self.selected_sequence {
            None => {
                return Err("No sequence selected");
            },
            Some(i) => i,
        };
        let p = match self.selected_point {
            None => {
                return Err("No point selected");
            },
            Some(p) => p,
        };
        if idx >= self.sequences.len() {
            return Err("Selected sequence is invalid");
        }
        if p >= self.sequences[idx].points.len() {
            return Err("Selected point is invalid");
        }
        let start = self.sequences[idx].points[p].value;
        let name = self.sequences[idx].name.clone();
        self.push_undo_snapshot();
        let mut item = self.sequences[idx].duplicate();
        let ghost original = item@;
        let n = item.points.len();
        let mut k: usize = p + 1;
        while k < n
            invariant
                p < k <= n,
                n == original.points.len(),
                start == original.points[p as int].value,
                can_renumber_after(original.points, p as int),
                item@.points.len() == n,
                item@ == original.with_points(item@.points),
                forall|j: int|
                    0 <= j < k ==> #[trigger] item@.points[j] == renumbered_after(
                        original.points,
                        p as int,
                    )[j],
                forall|j: int| k <= j < n ==> #[trigger] item@.points[j] == original.points[j],
            decreases n - k,
        {
            assert(fits_i32(shifted(start, k - p)));
            let position = item.points[k].position;
            item.points.set(k, SequencePoint { position, value: start + ((k - p) as i32) });
            k = k + 1;
        }
        assert(item@.points =~= renumbered_after(original.points, p as int));
        let ghost item_view = item@;
        self.sequences.set(idx, item);
        assert(self.sequences_view() =~= old(self).sequences_view().update(idx as int, item_view));
        self.mark_dirty();
        Ok((name, p))
    }
}

impl EditorState {
    /// Remove the selected point from the selected sequence. The selection
    /// moves to the new last point when the removed point was the last one,
    /// and is cleared when no point is left. Returns the sequence name.
    pub fn remove_selected_point(&mut self) -> (r: Result<String, &'static str>)
        ensures
            old(self).selected_sequence is None ==> is_error(r, "No sequence selected")
                && *final(self) == *old(self),
            old(self).selected_sequence is Some && old(self).selected_point is None ==> is_error(
                r,
                "No point selected",
            ) && *final(self) == *old(self),
            old(self).selected_sequence is Some && old(self).selected_point is Some && old(
                self,
            ).valid_selection() is None ==> is_error(r, "Selected sequence is invalid")
                && *final(self) == *old(self),
            old(self).valid_selection() is Some && old(self).selected_point is Some && old(
                self,
            ).valid_point() is None ==> is_error(r, "Selected point is invalid") && *final(self)
                == *old(self),
            old(self).valid_point() matches Some(p) ==> {
                let item = old(self).selected_item();
                let remaining = item.points.remove(p as int);
                &&& r matches Ok(name) && name@ == item.name
                &&& final(self).sequences_view() == old(self).sequences_view().update(
                    old(self).selected_sequence.unwrap() as int,
                    item.with_points(remaining),
                )
                &&& final(self).selected_point == if remaining.len() == 0 {
                    None
                } else if p >= remaining.len() {
                    Some((remaining.len() - 1) as usize)
                } else {
                    Some(p)
                }
                &&& records_undo(*old(self), *final(self))
                &&& final(self).selected_sequence == old(self).selected_sequence
                &&& final(self).scroll_selected_point_into_view
                    == old(self).scroll_selected_point_into_view
                &&& final(self).has_unsaved_changes
                &&& final(self).dragged_point == old(self).dragged_point
                &&& final(self).same_metadata(old(self))
            },
    {
        let idx = match self.selected_sequence {
            None => {
                return Err("No sequence selected");
            },
            Some(i) => i,
        };
        let p = match self.selected_point {
            None => {
                return Err("No point selected");
            },
            Some(p) => p,
        };
        if idx >= self.sequences.len() {
            return Err("Selected sequence is invalid");
        }
        if p >= self.sequences[idx].points.len() {
            return Err("Selected point is invalid");
        }
        self.push_undo_snapshot();
        let mut item = self.sequences[idx].duplicate();
        item.points.remove(p);
        let remaining = item.points.len();
        let name = item.name.clone();
        let ghost item_view = item@;
        self.sequences.set(idx, item);
        assert(self.sequences_view() =~= old(self).sequences_view().update(idx as int, item_view));
        if remaining == 0 {
            self.selected_point = None;
        } else if p >= remaining {
            self.selected_point = Some(remaining - 1);
        }
        self.mark_dirty();
        Ok(name)
    }

    /// Select the point that a search found, as (sequence index, point index).
    /// Returns the sequence name and the point's number, or `None` when
    /// nothing was found.
    pub fn select_point_near_image_position(&mut self, found: Option<(usize, usize)>) -> (r:
        Option<(String, i32)>)
        requires
            found matches Some((s, p)) ==> s < old(self).sequences@.len() && p < old(
                self,
            ).sequences_view()[s as int].points.len(),
        ensures
            found is None ==> r is None && *final(self) == *old(self),
            found matches Some((s, p)) ==> {
                &&& *final(self) == (EditorState {
                    selected_sequence: Some(s),
                    selected_point: Some(p),
                    scroll_selected_point_into_view: true,
                    ..*old(self)
                })
                &&& r matches Some((name, value)) && name@ == old(
                    self,
                ).sequences_view()[s as int].name && value == old(
                    self,
                ).sequences_view()[s as int].points[p as int].value
            },
    {
        let (s, p) = match found {
            None => {
                return None;
            },
            Some(pair) => pair,
        };
        self.selected_sequence = Some(s);
        self.selected_point = Some(p);
        self.scroll_selected_point_into_view = true;
        let name = self.sequences[s].name.clone();
        let value = self.sequences[s].points[p].value;
        Some((name, value))
    }

    /// Start dragging an existing point: records an undo snapshot, selects the
    /// point and remembers it as the dragged one. Returns the point's number.
    pub fn begin_point_drag(&mut self, sequence_index: usize, point_index: usize) -> (value: i32)
        requires
            sequence_index < old(self).sequences@.len(),
            point_index < old(self).sequences_view()[sequence_index as int].points.len(),
        ensures
            value == old(self).sequences_view()[sequence_index as int].points[point_index as int].value,
            records_undo(*old(self), *final(self)),
            final(self).sequences_view() == old(self).sequences_view(),
            final(self).selected_sequence == Some(sequence_index),
            final(self).selected_point == Some(point_index),
            final(self).dragged_point == Some((sequence_index, point_index)),
            final(self).scroll_selected_point_into_view == old(self).scroll_selected_point_into_view,
            final(self).has_unsaved_changes == old(self).has_unsaved_changes,
            final(self).same_metadata(old(self)),
    {
        self.push_undo_snapshot();
        self.selected_sequence = Some(sequence_index);
        self.selected_point = Some(point_index);
        self.dragged_point = Some((sequence_index, point_index));
        self.sequences[sequence_index].points[point_index].value
    }

    /// Move the dragged point to `image_pos`. Returns the point's number, or
    /// `None` when no existing point is being dragged.
    pub fn move_dragged_point_to(&mut self, image_pos: egui::Pos2) -> (r: Option<i32>)
        ensures
            match old(self).dragged_point {
                Some((s, p)) => if s < old(self).sequences@.len() && p < old(
                    self,
                ).sequences_view()[s as int].points.len() {
                    let item = old(self).sequences_view()[s as int];
                    &&& r == Some(item.points[p as int].value)
                    &&& final(self).sequences_view() == old(self).sequences_view().update(
                        s as int,
                        item.with_points(
                            item.points.update(
                                p as int,
                                (SequencePoint {
                                    position: image_pos,
                                    value: item.points[p as int].value,
                                }),
                            ),
                        ),
                    )
                    &&& final(self).history() == old(self).history()
                    &&& final(self).selected_sequence == old(self).selected_sequence
                    &&& final(self).selected_point == old(self).selected_point
                    &&& final(self).dragged_point == old(self).dragged_point
                    &&& final(self).scroll_selected_point_into_view
                        == old(self).scroll_selected_point_into_view
                    &&& final(self).has_unsaved_changes
                    &&& final(self).same_metadata(old(self))
                } else {
                    r is None && *final(self) == *old(self)
                },
                None => r is None && *final(self) == *old(self),
            },
    {
        let (s, p) = match self.dragged_point {
            None => {
                return None;
            },
            Some(pair) => pair,
        };
        if s >= self.sequences.len() {
            return None;
        }
        if p >= self.sequences[s].points.len() {
            return None;
        }
        let mut item = self.sequences[s].duplicate();
        let value = item.points[p].value;
        item.points.set(p, SequencePoint { position: image_pos, value });
        let ghost item_view = item@;
        self.sequences.set(s, item);
        assert(self.sequences_view() =~= old(self).sequences_view().update(s as int, item_view));
        self.mark_dirty();
        Some(value)
    }

    /// Select the first point of the selected sequence. Returns the sequence name.
    pub fn jump_to_selected_sequence_start(&mut self) -> (r: Result<String, &'static str>)
        ensures
            old(self).selected_sequence is None ==> is_error(r, "No sequence selected")
                && *final(self) == *old(self),
            old(self).selected_sequence is Some && old(self).valid_selection() is None ==> is_error(
                r,
                "Selected sequence is invalid",
            ) && *final(self) == *old(self),
            old(self).valid_selection() is Some && old(self).selected_item().points.len() == 0
                ==> is_error(r, "Sequence has no points") && *final(self) == *old(self),
            old(self).valid_selection() is Some && old(self).selected_item().points.len() > 0 ==> {
                &&& r matches Ok(name) && name@ == old(self).selected_item().name
                &&& *final(self) == (EditorState {
                    selected_point: Some(0usize),
                    scroll_selected_point_into_view: true,
                    ..*old(self)
                })
            },
    {
        let idx = match self.selected_sequence {
            None => {
                return Err("No sequence selected");
            },
            Some(i) => i,
        };
        if idx >= self.sequences.len() {
            return Err("Selected sequence is invalid");
        }
        if self.sequences[idx].points.len() == 0 {
            return Err("Sequence has no points");
        }
        self.selected_point = Some(0);
        self.scroll_selected_point_into_view = true;
        Ok(self.sequences[idx].name.clone())
    }

    /// Select the last point of the selected sequence. Returns the sequence name.
    pub fn jump_to_selected_sequence_end(&mut self) -> (r: Result<String, &'static str>)
        ensures
            old(self).selected_sequence is None ==> is_error(r, "No sequence selected")
                && *final(self) == *old(self),
            old(self).selected_sequence is Some && old(self).valid_selection() is None ==> is_error(
                r,
                "Selected sequence is invalid",
            ) && *final(self) == *old(self),
            old(self).valid_selection() is Some && old(self).selected_item().points.len() == 0
                ==> is_error(r, "Sequence has no points") && *final(self) == *old(self),
            old(self).valid_selection() is Some && old(self).selected_item().points.len() > 0 ==> {
                &&& r matches Ok(name) && name@ == old(self).selected_item().name
                &&& *final(self) == (EditorState {
                    selected_point: Some((old(self).selected_item().points.len() - 1) as usize),
                    scroll_selected_point_into_view: true,
                    ..*old(self)
                })
            },
    {
        let idx = match self.selected_sequence {
            None => {
                return Err("No sequence selected");
            },
            Some(i) => i,
        };
        if idx >= self.sequences.len() {
            return Err("Selected sequence is invalid");
        }
        if self.sequences[idx].points.len() == 0 {
            return Err("Sequence has no points");
        }
        let last_index = self.sequences[idx].points.len() - 1;
        self.selected_point = Some(last_index);
        self.scroll_selected_point_into_view = true;
        Ok(self.sequences[idx].name.clone())
    }
}

/// The point that "previous point" selects in a sequence of `len > 0` points.
pub open spec fn previous_index(selected: Option<usize>, len: nat) -> int {
    match selected {
        Some(k) => if k > 0 {
            k - 1
        } else {
            0
        },
        None => len - 1,
    }
}

/// The point that "next point" selects in a sequence of `len > 0` points.
pub open spec fn next_index(selected: Option<usize>, len: nat) -> int {
    match selected {
        Some(k) => if k < len - 1 {
            k + 1
        } else {
            len - 1
        },
        None => 0,
    }
}

impl EditorState {
    /// Select the point before the selected one (the first point stays
    /// selected; with no selection, the last point). Returns the selected
    /// point's number and the sequence name.
    pub fn select_previous_point_in_sequence(&mut self) -> (r: Result<(i32, String), &'static str>)
        requires
            old(self).valid_selection() is Some && old(self).selected_item().points.len() > 0
                ==> previous_index(
                old(self).selected_point,
                old(self).selected_item().points.len(),
            ) < old(self).selected_item().points.len(),
        ensures
            old(self).selected_sequence is None ==> is_error(r, "No sequence selected")
                && *final(self) == *old(self),
            old(self).selected_sequence is Some && old(self).valid_selection() is None ==> is_error(
                r,
                "Selected sequence is invalid",
            ) && *final(self) == *old(self),
            old(self).valid_selection() is Some && old(self).selected_item().points.len() == 0
                ==> is_error(r, "Sequence has no points") && *final(self) == *old(self),
            old(self).valid_selection() is Some && old(self).selected_item().points.len() > 0 ==> {
                let item = old(self).selected_item();
                let k = previous_index(old(self).selected_point, item.points.len());
                &&& r matches Ok((value, name)) && value == item.points[k].value && name@
                    == item.name
                &&& *final(self) == (EditorState {
                    selected_point: Some(k as usize),
                    scroll_selected_point_into_view: true,
                    ..*old(self)
                })
            },
    {
        let idx = match self.selected_sequence {
            None => {
                return Err("No sequence selected");
            },
            Some(i) => i,
        };
        if idx >= self.sequences.len() {
            return Err("Selected sequence is invalid");
        }
        let len = self.sequences[idx].points.len();
        if len == 0 {
            return Err("Sequence has no points");
        }
        let new_index = match self.selected_point {
            Some(k) => if k > 0 {
                k - 1
            } else {
                0
            },
            None => len - 1,
        };
        let value = self.sequences[idx].points[new_index].value;
        let name = self.sequences[idx].name.clone();
        self.selected_point = Some(new_index);
        self.scroll_selected_point_into_view = true;
        Ok((value, name))
    }

    /// Select the point after the selected one (the last point stays
    /// selected; with no selection, the first point). Returns the selected
    /// point's number and the sequence name.
    pub fn select_next_point_in_sequence(&mut self) -> (r: Result<(i32, String), &'static str>)
        ensures
            old(self).selected_sequence is None ==> is_error(r, "No sequence selected")
                && *final(self) == *old(self),
            old(self).selected_sequence is Some && old(self).valid_selection() is None ==> is_error(
                r,
                "Selected sequence is invalid",
            ) && *final(self) == *old(self),
            old(self).valid_selection() is Some && old(self).selected_item().points.len() == 0
                ==> is_error(r, "Sequence has no points") && *final(self) == *old(self),
            old(self).valid_selection() is Some && old(self).selected_item().points.len() > 0 ==> {
                let item = old(self).selected_item();
                let k = next_index(old(self).selected_point, item.points.len());
                &&& r matches Ok((value, name)) && value == item.points[k].value && name@
                    == item.name
                &&& *final(self) == (EditorState {
                    selected_point: Some(k as usize),
                    scroll_selected_point_into_view: true,
                    ..*old(self)
                })
            },
    {
        let idx = match self.selected_sequence {
            None => {
                return Err("No sequence selected");
            },
            Some(i) => i,
        };
        if idx >= self.sequences.len() {
            return Err("Selected sequence is invalid");
        }
        let len = self.sequences[idx].points.len();
        if len == 0 {
            return Err("Sequence has no points");
        }
        let last_index = len - 1;
        let new_index = match self.selected_point {
            Some(k) => if k < last_index {
                k + 1
            } else {
                last_index
            },
            None => 0,
        };
        let value = self.sequences[idx].points[new_index].value;
        let name = self.sequences[idx].name.clone();
        self.selected_point = Some(new_index);
        self.scroll_selected_point_into_view = true;
        Ok((value, name))
    }

    /// Append a new empty sequence named "Sequence N", where N is the new
    /// number of sequences, and select it.
    pub fn add_sequence(&mut self)
        requires
            old(self).sequences@.len() < usize::MAX,
        ensures
            final(self).sequences_view() == old(self).sequences_view().push(
                fresh_sequence(
                    "Sequence "@ + decimal_digits((old(self).sequences@.len() + 1) as nat),
                ),
            ),
            records_undo(*old(self), *final(self)),
            final(self).selected_sequence == Some(old(self).sequences@.len() as usize),
            final(self).selected_point == None::<usize>,
            final(self).dragged_point == old(self).dragged_point,
            final(self).scroll_selected_point_into_view == old(self).scroll_selected_point_into_view,
            final(self).has_unsaved_changes,
            final(self).same_metadata(old(self)),
    {
        let next_number = self.sequences.len() + 1;
        self.push_undo_snapshot();
        let mut name = owned_string("Sequence ");
        push_unsigned(&mut name, next_number as u64);
        let item = SequenceItem::fresh(name);
        let ghost item_view = item@;
        self.sequences.push(item);
        assert(self.sequences_view() =~= old(self).sequences_view().push(item_view));
        self.selected_sequence = Some(self.sequences.len() - 1);
        self.selected_point = None;
        self.mark_dirty();
    }

    /// Remove the selected sequence. The sequence that takes its place is
    /// selected, or the new last one, or none when no sequence is left.
    /// Returns `false`, changing nothing, when no existing sequence is selected.
    pub fn remove_selected_sequence(&mut self) -> (removed: bool)
        ensures
            old(self).valid_selection() is None ==> !removed && *final(self) == *old(self),
            old(self).valid_selection() matches Some(i) ==> {
                let remaining = old(self).sequences_view().remove(i as int);
                &&& removed
                &&& final(self).sequences_view() == remaining
                &&& final(self).selected_sequence == if remaining.len() == 0 {
                    None
                } else if i >= remaining.len() {
                    Some((remaining.len() - 1) as usize)
                } else {
                    Some(i)
                }
                &&& final(self).selected_point == None::<usize>
                &&& records_undo(*old(self), *final(self))
                &&& final(self).dragged_point == old(self).dragged_point
                &&& final(self).scroll_selected_point_into_view
                    == old(self).scroll_selected_point_into_view
                &&& final(self).has_unsaved_changes
                &&& final(self).same_metadata(old(self))
            },
    {
        let index = match self.selected_sequence {
            None => {
                return false;
            },
            Some(i) => i,
        };
        if index >= self.sequences.len() {
            return false;
        }
        self.push_undo_snapshot();
        self.sequences.remove(index);
        assert(self.sequences_view() =~= old(self).sequences_view().remove(index as int));
        let len = self.sequences.len();
        if len == 0 {
            self.selected_sequence = None;
        } else if index >= len {
            self.selected_sequence = Some(len - 1);
        } else {
            self.selected_sequence = Some(index);
        }
        self.selected_point = None;
        self.mark_dirty();
        true
    }

    /// Replace the whole project with one read from storage: the first
    /// sequence (if any) is selected, the history is emptied and the state
    /// counts as saved.
    pub fn load_project_state(
        &mut self,
        project_name: String,
        origin_url: String,
        comment: String,
        sequences: Vec<SequenceItem>,
    )
        ensures
            final(self).project_name@ == project_name@,
            final(self).origin_url@ == origin_url@,
            final(self).comment@ == comment@,
            final(self).sequences_view() == items_view(sequences@),
            final(self).selected_sequence == if sequences@.len() == 0 {
                None
            } else {
                Some(0usize)
            },
            final(self).selected_point == None::<usize>,
            final(self).dragged_point == None::<(usize, usize)>,
            final(self).undo_stack@.len() == 0,
            !final(self).scroll_selected_point_into_view,
            !final(self).has_unsaved_changes,
    {
        self.project_name = project_name;
        self.origin_url = origin_url;
        self.comment = comment;
        self.sequences = sequences;
        self.selected_sequence = if self.sequences.len() == 0 {
            None
        } else {
            Some(0)
        };
        self.selected_point = None;
        self.dragged_point = None;
        self.undo_stack.clear();
        self.scroll_selected_point_into_view = false;
        self.clear_dirty();
    }
}

impl Default for EditorState {
    /// A new project with one empty sequence named "Sequence 1".
    fn default() -> (r: EditorState)
        ensures
            r.is_new_project(),
    {
        let first = SequenceItem::fresh(owned_string("Sequence 1"));
        let mut sequences: Vec<SequenceItem> = Vec::new();
        sequences.push(first);
        let r = EditorState {
            project_name: owned_string("Untitled Project"),
            origin_url: String::new(),
            comment: String::new(),
            sequences,
            selected_sequence: Some(0),
            selected_point: None,
            scroll_selected_point_into_view: false,
            dragged_point: None,
            undo_stack: Vec::new(),
            has_unsaved_changes: false,
        };
        assert(r.sequences_view() =~= seq![fresh_sequence("Sequence 1"@)]);
        r
    }
}

} // verus!
