//! Properties of exporting and drawing, and of new sequences, stated over
//! the inputs and results of the operations.
use vstd::prelude::*;

use crate::editor::{fresh_sequence, shifted, SequenceItemView, DEFAULT_LINE_THICKNESS_BITS};
use crate::export_dialog::{csv_export_outcome, ExportScope};
use crate::export_logic::{
    csv_header, csv_row, csv_rows, csv_rows_of_sequences, has_overlay_content, in_disc,
    marker_marks, overlay_marks, paint, sanitized_file_name, segment_marks, sequence_marks,
};
use crate::model::ColorStyle;
use crate::text::decimal_text;

verus! {

/// Exporting all sequences as CSV is refused with "There are no points to
/// export" exactly when no sequence (the first one included) has a point;
/// as soon as any sequence has a point, the export is the all-sequences CSV.
pub proof fn all_sequences_csv_refused_only_without_points(
    sequences: Seq<SequenceItemView>,
    selected: Option<usize>,
)
    requires
        sequences.len() > 0,
    ensures
        (forall|k: int| 0 <= k < sequences.len() ==> #[trigger] sequences[k].points.len() == 0)
            <==> csv_export_outcome(sequences, selected, ExportScope::AllSequences) == Err::<
            (Seq<char>, Seq<char>),
            Seq<char>,
        >("There are no points to export"@),
        (exists|k: int| 0 <= k < sequences.len() && #[trigger] sequences[k].points.len() > 0)
            ==> csv_export_outcome(sequences, selected, ExportScope::AllSequences) == Ok::<
            (Seq<char>, Seq<char>),
            Seq<char>,
        >(
            (
                "all_sequences.csv"@,
                csv_header() + csv_rows_of_sequences(sequences, sequences.len() as int),
            ),
        ),
{
    if exists|k: int| 0 <= k < sequences.len() && #[trigger] sequences[k].points.len() > 0 {
        let k = choose|k: int| 0 <= k < sequences.len() && #[trigger] sequences[k].points.len() > 0;
        assert(sequences[k].points.len() != 0);
    }
}

/// The first field of the CSV row of any point is the index of its sequence
/// in the project, followed by a comma.
pub proof fn csv_rows_begin_with_the_sequence_index(
    sequence_index: int,
    item: SequenceItemView,
    p: int,
)
    requires
        sequence_index >= 0,
        0 <= p < item.points.len(),
    ensures
        csv_row(sequence_index, item, p).take(decimal_text(sequence_index).len() + 1int)
            == decimal_text(sequence_index) + ","@,
{
    reveal_strlit(",");
    let d = decimal_text(sequence_index);
    assert(csv_row(sequence_index, item, p).take(d.len() + 1int) =~= d + ","@);
}

/// Exporting the selected sequence as CSV, when it exists and has points,
/// gives the file named after it and the CSV of that sequence under its own
/// index in the project: every row starts with that index.
pub proof fn selected_csv_keeps_the_project_index(sequences: Seq<SequenceItemView>, i: usize)
    requires
        i < sequences.len(),
        sequences[i as int].points.len() > 0,
    ensures
        csv_export_outcome(sequences, Some(i), ExportScope::SelectedSequence) == Ok::<
            (Seq<char>, Seq<char>),
            Seq<char>,
        >(
            (
                sanitized_file_name(sequences[i as int].name) + ".csv"@,
                csv_header() + csv_rows(
                    i as int,
                    sequences[i as int],
                    sequences[i as int].points.len() as int,
                ),
            ),
        ),
        forall|p: int|
            0 <= p < sequences[i as int].points.len() ==> #[trigger] csv_row(
                i as int,
                sequences[i as int],
                p,
            ).take(decimal_text(i as int).len() + 1int) == decimal_text(i as int) + ","@,
{
    assert forall|p: int| 0 <= p < sequences[i as int].points.len() implies #[trigger] csv_row(
        i as int,
        sequences[i as int],
        p,
    ).take(decimal_text(i as int).len() + 1int) == decimal_text(i as int) + ","@ by {
        csv_rows_begin_with_the_sequence_index(i as int, sequences[i as int], p);
    }
}

/// Drawing a filled circle paints a pixel of the image exactly when its
/// squared Euclidean distance from the center is at most the squared radius
/// (and the radius is not negative); every other pixel keeps its color.
pub proof fn filled_circle_paints_the_euclidean_disc(
    pixels: Map<(u32, u32), ColorStyle>,
    width: u32,
    height: u32,
    center_x: int,
    center_y: int,
    radius: int,
    color: ColorStyle,
    x: u32,
    y: u32,
)
    requires
        x < width,
        y < height,
        pixels.dom().contains((x, y)),
    ensures
        paint(
            pixels,
            |px: int, py: int| in_disc(center_x, center_y, radius, width as int, height as int, px, py),
            color,
        )[(x, y)] == if radius >= 0 && (x - center_x) * (x - center_x) + (y - center_y) * (y
            - center_y) <= radius * radius {
            color
        } else {
            pixels[(x, y)]
        },
{
}

proof fn lemma_segment_marks_len(s: usize, n: int)
    ensures
        segment_marks(s, n).len() == if n <= 0 {
            0
        } else {
            n
        },
    decreases n,
{
    if n > 0 {
        lemma_segment_marks_len(s, n - 1);
    }
}

proof fn lemma_marker_marks_len(s: usize, n: int)
    ensures
        marker_marks(s, n).len() == if n <= 0 {
            0
        } else {
            n
        },
    decreases n,
{
    if n > 0 {
        lemma_marker_marks_len(s, n - 1);
    }
}

/// A sequence has overlay content exactly when the overlay plan draws
/// something for it: it must be visible and have a line (two points) or,
/// with points included, a point. A sequence without points never has content.
pub proof fn overlay_content_is_what_the_plan_draws(
    s: usize,
    item: SequenceItemView,
    include_points: bool,
)
    ensures
        has_overlay_content(item, include_points) <==> sequence_marks(
            s,
            item,
            include_points,
        ).len() > 0,
        item.points.len() == 0 ==> !has_overlay_content(item, include_points),
        item.points.len() == 1 ==> (has_overlay_content(item, include_points) <==> item.visible
            && include_points),
        item.points.len() >= 2 ==> (has_overlay_content(item, include_points) <==> item.visible),
{
    lemma_segment_marks_len(s, item.points.len() - 1);
    lemma_marker_marks_len(s, item.points.len() as int);
}

/// An overlay export of the listed sequences has something to show exactly
/// when its drawing plan is not empty.
pub proof fn overlay_has_content_iff_plan_draws(
    items: Seq<SequenceItemView>,
    indices: Seq<usize>,
    k: int,
    include_points: bool,
)
    requires
        0 <= k <= indices.len(),
        forall|j: int| 0 <= j < indices.len() ==> #[trigger] indices[j] < items.len(),
    ensures
        (exists|j: int|
            0 <= j < k && has_overlay_content(#[trigger] items[indices[j] as int], include_points))
            <==> overlay_marks(items, indices, k, include_points).len() > 0,
    decreases k,
{
    if k > 0 {
        overlay_has_content_iff_plan_draws(items, indices, k - 1, include_points);
        let last = items[indices[k - 1] as int];
        overlay_content_is_what_the_plan_draws(indices[k - 1], last, include_points);
        if has_overlay_content(last, include_points) {
            assert(has_overlay_content(items[indices[k - 1] as int], include_points));
        }
        if exists|j: int|
            0 <= j < k && has_overlay_content(#[trigger] items[indices[j] as int], include_points) {
            let j = choose|j: int|
                0 <= j < k && has_overlay_content(
                    #[trigger] items[indices[j] as int],
                    include_points,
                );
            if j < k - 1 {
                assert(exists|jj: int|
                    0 <= jj < k - 1 && has_overlay_content(
                        #[trigger] items[indices[jj] as int],
                        include_points,
                    ));
            }
        }
    }
}

/// A new sequence, whatever its name, is visible, has the default color and
/// line thickness, no points and start value 1, so its first point is
/// numbered 1; only its name depends on the name it was given.
pub proof fn fresh_sequences_start_at_one(name: Seq<char>, other: Seq<char>)
    ensures
        fresh_sequence(name).name == name,
        fresh_sequence(name).start_value == 1,
        fresh_sequence(name).visible,
        fresh_sequence(name).points.len() == 0,
        fresh_sequence(name).color == (ColorStyle { r: 120, g: 180, b: 255, a: 255 }),
        fresh_sequence(name).line_thickness_bits == DEFAULT_LINE_THICKNESS_BITS,
        fresh_sequence(name) == (SequenceItemView { name, ..fresh_sequence(other) }),
        shifted(fresh_sequence(name).start_value, fresh_sequence(name).points.len() as int) == 1,
{
}

} // verus!
