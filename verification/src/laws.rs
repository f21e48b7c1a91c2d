//! Properties that hold across the editor's operations and of the text
//! formats, stated over the same spec functions the operations' contracts use.
use vstd::prelude::*;

use crate::editor::{
    history_after_push, next_index, previous_index, records_undo, renumbered_after,
    renumbered_from_start, shifted, can_renumber_after, can_renumber_from_start, EditorState,
    SequencePoint, SnapshotView, UNDO_LIMIT,
};
use crate::editor::SequenceItemView;
use crate::export_logic::{
    csv_rows, csv_rows_of_sequences, file_name_char, is_unsafe_file_name_char,
    sanitized_file_name,
};
use crate::model::{channels_of, color_of_channels, ColorStyle};
use crate::markdown::{flush, inline_segments, segments_from, SegmentView};
use crate::text::{is_white_space, trim_chars, trim_end_chars, trim_start_chars};

verus! {

/// Undoing an edit that recorded an undo snapshot restores the sequences and
/// the selection from before the edit. The history is the one from before
/// the edit, except that a full history has lost its oldest entry.
pub proof fn undo_reverts_edit(
    before: EditorState,
    edited: EditorState,
    undone: EditorState,
    applied: bool,
)
    requires
        records_undo(before, edited),
        EditorState::undo_outcome(edited, undone, applied),
    ensures
        applied,
        undone.snapshot() == before.snapshot(),
        undone.history() == if before.history().len() < UNDO_LIMIT {
            before.history()
        } else {
            before.history().drop_first()
        },
{
    let h = before.history();
    let s = before.snapshot();
    assert(edited.undo_stack@.len() == edited.history().len());
    if h.len() + 1 > UNDO_LIMIT {
        assert(h.push(s).drop_first().drop_last() =~= h.drop_first());
        assert(h.push(s).drop_first().last() == s);
    } else {
        assert(h.push(s).drop_last() =~= h);
    }
}

/// Recording a snapshot never lets the history grow beyond `UNDO_LIMIT`
/// entries, and the recorded snapshot is always the newest one.
pub proof fn undo_history_is_bounded(history: Seq<SnapshotView>, snapshot: SnapshotView)
    requires
        history.len() <= UNDO_LIMIT,
    ensures
        history_after_push(history, snapshot).len() <= UNDO_LIMIT,
        history_after_push(history, snapshot).last() == snapshot,
        history_after_push(history, snapshot).len() == if history.len() < UNDO_LIMIT {
            history.len() + 1
        } else {
            history.len()
        },
{
}

/// Renumbering from the start value numbers the points consecutively: the
/// first point gets the start value and each point one more than the one before.
pub proof fn renumbering_counts_up_from_start(points: Seq<SequencePoint>, start: i32, i: int)
    requires
        can_renumber_from_start(points, start),
        0 <= i < points.len(),
        i < i32::MAX,
    ensures
        renumbered_from_start(points, start)[0].value == start,
        i + 1 < points.len() ==> renumbered_from_start(points, start)[i + 1].value
            == renumbered_from_start(points, start)[i].value + 1,
        renumbered_from_start(points, start)[i].position == points[i].position,
{
    assert(shifted(start, 0) == start);
    if i + 1 < points.len() {
        assert(crate::editor::fits_i32(shifted(start, i)));
        assert(crate::editor::fits_i32(shifted(start, i + 1)));
    }
}

/// Renumbering after a point keeps it and every point before it, and
/// continues its number by one per following point.
pub proof fn renumbering_continues_after_point(points: Seq<SequencePoint>, p: int, i: int)
    requires
        0 <= p < points.len(),
        can_renumber_after(points, p),
        0 <= i < points.len(),
        i - p <= i32::MAX,
    ensures
        i <= p ==> renumbered_after(points, p)[i] == points[i],
        p < i ==> renumbered_after(points, p)[i].value == points[p].value + (i - p),
        renumbered_after(points, p)[i].position == points[i].position,
{
    if p < i {
        assert(crate::editor::fits_i32(shifted(points[p].value, i - p)));
    }
}

/// Whether the points are numbered consecutively from `start`.
pub open spec fn numbered_from(points: Seq<SequencePoint>, start: i32) -> bool {
    forall|i: int| 0 <= i < points.len() ==> #[trigger] points[i].value == start + i
}

/// Appending a point numbered `start + len` (what "add point" does) to a
/// sequence numbered consecutively from `start` keeps it so numbered.
pub proof fn adding_keeps_consecutive_numbering(
    points: Seq<SequencePoint>,
    start: i32,
    position: egui::Pos2,
)
    requires
        numbered_from(points, start),
        crate::editor::fits_i32(shifted(start, points.len() as int)),
        points.len() <= i32::MAX,
    ensures
        numbered_from(
            points.push(
                (SequencePoint {
                    position,
                    value: shifted(start, points.len() as int) as i32,
                }),
            ),
            start,
        ),
{
    let extended = points.push(
        SequencePoint { position, value: shifted(start, points.len() as int) as i32 },
    );
    assert forall|i: int| 0 <= i < extended.len() implies #[trigger] extended[i].value == start
        + i by {
        if i == points.len() {
            assert((points.len() as int) as i32 == points.len());
        }
    }
}

/// After removing a point, the selected point is either cleared (no point
/// left) or names an existing point.
pub proof fn removal_keeps_point_selection_valid(len_after: nat, removed: int)
    requires
        0 <= removed <= len_after,
    ensures
        ({
            let selected: Option<usize> = if len_after == 0 {
                None
            } else if removed >= len_after {
                Some((len_after - 1) as usize)
            } else {
                Some(removed as usize)
            };
            match selected {
                Some(k) => k < len_after,
                None => len_after == 0,
            }
        }),
{
}

/// Moving to the previous or next point always lands on an existing point
/// when the current selection is one (or there is none).
pub proof fn navigation_stays_in_sequence(selected: Option<usize>, len: nat)
    requires
        len > 0,
        selected matches Some(k) ==> k < len,
    ensures
        0 <= previous_index(selected, len) < len,
        0 <= next_index(selected, len) < len,
        selected matches Some(k) ==> (k > 0 ==> previous_index(selected, len) == k - 1),
        selected matches Some(k) ==> (k + 1 < len ==> next_index(selected, len) == k + 1),
{
}

proof fn lemma_trim_start_shape(s: Seq<char>)
    ensures
        trim_start_chars(s).len() > 0 ==> !is_white_space(trim_start_chars(s)[0]),
        forall|c: char| #[trigger] trim_start_chars(s).contains(c) ==> s.contains(c),
        trim_start_chars(s).len() <= s.len(),
    decreases s.len(),
{
    if s.len() > 0 && is_white_space(s[0]) {
        lemma_trim_start_shape(s.drop_first());
        assert forall|c: char| #[trigger] trim_start_chars(s).contains(c) implies s.contains(c) by {
            if trim_start_chars(s.drop_first()).contains(c) {
                let k = choose|k: int| 0 <= k < s.drop_first().len() && s.drop_first()[k] == c;
                assert(s[k + 1] == c);
            }
        }
    }
}

proof fn lemma_trim_end_shape(s: Seq<char>)
    ensures
        trim_end_chars(s).len() > 0 ==> !is_white_space(trim_end_chars(s).last()),
        trim_end_chars(s).len() <= s.len(),
        trim_end_chars(s) == s.take(trim_end_chars(s).len() as int),
    decreases s.len(),
{
    if s.len() > 0 && is_white_space(s.last()) {
        lemma_trim_end_shape(s.drop_last());
        assert(s.drop_last().take(trim_end_chars(s).len() as int) =~= s.take(
            trim_end_chars(s).len() as int,
        ));
    } else {
        assert(s.take(s.len() as int) =~= s);
    }
}

proof fn lemma_trim_keeps_clean_edges(s: Seq<char>)
    requires
        s.len() > 0 ==> !is_white_space(s[0]) && !is_white_space(s.last()),
    ensures
        trim_chars(s) == s,
{
    assert(trim_start_chars(s) == s);
    assert(trim_end_chars(s) == s);
}

/// A sanitized file name is never empty, holds no character that is unsafe
/// in file names, has no surrounding whitespace, and sanitizing it again
/// changes nothing.
pub proof fn sanitized_names_are_clean_and_stable(name: Seq<char>)
    ensures
        sanitized_file_name(name).len() > 0,
        forall|k: int|
            0 <= k < sanitized_file_name(name).len() ==> !is_unsafe_file_name_char(
                #[trigger] sanitized_file_name(name)[k],
            ),
        !is_white_space(sanitized_file_name(name)[0]),
        !is_white_space(sanitized_file_name(name).last()),
        sanitized_file_name(sanitized_file_name(name)) == sanitized_file_name(name),
{
    let mapped = name.map_values(|c: char| file_name_char(c));
    let start = trim_start_chars(mapped);
    let trimmed = trim_end_chars(start);
    lemma_trim_start_shape(mapped);
    lemma_trim_end_shape(start);
    reveal_strlit("export");
    let r = sanitized_file_name(name);
    assert forall|k: int| 0 <= k < r.len() implies !is_unsafe_file_name_char(#[trigger] r[k]) by {
        if trimmed.len() > 0 {
            assert(trimmed[k] == start[k]);
            assert(start.contains(start[k]));
            assert(mapped.contains(start[k]));
            let j = choose|j: int| 0 <= j < mapped.len() && mapped[j] == start[k];
            assert(mapped[j] == file_name_char(name[j]));
        }
    }
    if trimmed.len() > 0 {
        assert(trimmed[0] == start[0]);
    }
    assert(r.map_values(|c: char| file_name_char(c)) =~= r);
    lemma_trim_keeps_clean_edges(r);
}

/// Concatenated texts of a list of segments.
pub open spec fn joined_texts(segments: Seq<SegmentView>) -> Seq<char>
    decreases segments.len(),
{
    if segments.len() == 0 {
        Seq::empty()
    } else {
        segments[0].0 + joined_texts(segments.drop_first())
    }
}

/// `s` without its `*` characters.
pub open spec fn without_asterisks(s: Seq<char>) -> Seq<char>
    decreases s.len(),
{
    if s.len() == 0 {
        s
    } else {
        (if s[0] == '*' {
            Seq::empty()
        } else {
            seq![s[0]]
        }) + without_asterisks(s.drop_first())
    }
}

proof fn lemma_joined_append(a: Seq<SegmentView>, b: Seq<SegmentView>)
    ensures
        joined_texts(a + b) == joined_texts(a) + joined_texts(b),
    decreases a.len(),
{
    if a.len() == 0 {
        assert(a + b =~= b);
    } else {
        assert((a + b).drop_first() =~= a.drop_first() + b);
        lemma_joined_append(a.drop_first(), b);
        assert(joined_texts(a + b) =~= joined_texts(a) + joined_texts(b));
    }
}

proof fn lemma_joined_flush(current: Seq<char>, bold: bool, italic: bool)
    ensures
        joined_texts(flush(current, bold, italic)) == current,
{
    let f = flush(current, bold, italic);
    assert(joined_texts(Seq::<SegmentView>::empty()) == Seq::<char>::empty());
    if current.len() > 0 {
        assert(f.drop_first() =~= Seq::<SegmentView>::empty());
        assert(joined_texts(f) == f[0].0 + joined_texts(f.drop_first()));
        assert(current + Seq::<char>::empty() =~= current);
    } else {
        assert(current =~= Seq::<char>::empty());
    }
}

/// Whether every segment has text and no segment text holds a `*`.
pub open spec fn clean_segments(segments: Seq<SegmentView>) -> bool {
    forall|k: int|
        0 <= k < segments.len() ==> #[trigger] segments[k].0.len() > 0 && !segments[k].0.contains(
            '*',
        )
}

proof fn lemma_segments_from(chars: Seq<char>, i: int, current: Seq<char>, bold: bool, italic: bool)
    requires
        0 <= i <= chars.len(),
        !current.contains('*'),
    ensures
        joined_texts(segments_from(chars, i, current, bold, italic)) == current
            + without_asterisks(chars.skip(i)),
        clean_segments(segments_from(chars, i, current, bold, italic)),
    decreases chars.len() - i,
{
    let rest = chars.skip(i);
    lemma_joined_flush(current, bold, italic);
    if i >= chars.len() {
        assert(rest =~= Seq::<char>::empty());
        assert(current + Seq::<char>::empty() =~= current);
    } else {
        assert(rest.drop_first() =~= chars.skip(i + 1));
        if i + 1 < chars.len() && chars[i] == '*' && chars[i + 1] == '*' {
            lemma_segments_from(chars, i + 2, Seq::empty(), !bold, italic);
            assert(chars.skip(i + 1).drop_first() =~= chars.skip(i + 2));
            lemma_joined_append(
                flush(current, bold, italic),
                segments_from(chars, i + 2, Seq::empty(), !bold, italic),
            );
            assert(Seq::<char>::empty() + without_asterisks(chars.skip(i + 2)) =~= without_asterisks(
                chars.skip(i + 2),
            ));
            assert(without_asterisks(rest) == Seq::<char>::empty() + without_asterisks(
                chars.skip(i + 1),
            ));
            assert(chars.skip(i + 1)[0] == '*');
            assert(without_asterisks(chars.skip(i + 1)) == Seq::<char>::empty()
                + without_asterisks(chars.skip(i + 2)));
            assert(Seq::<char>::empty() + without_asterisks(chars.skip(i + 1)) =~= without_asterisks(
                chars.skip(i + 1),
            ));
            assert(without_asterisks(rest) =~= without_asterisks(chars.skip(i + 2)));
        } else if chars[i] == '*' {
            lemma_segments_from(chars, i + 1, Seq::empty(), bold, !italic);
            lemma_joined_append(
                flush(current, bold, italic),
                segments_from(chars, i + 1, Seq::empty(), bold, !italic),
            );
            assert(Seq::<char>::empty() + without_asterisks(chars.skip(i + 1)) =~= without_asterisks(
                chars.skip(i + 1),
            ));
            assert(without_asterisks(rest) =~= without_asterisks(chars.skip(i + 1)));
        } else {
            assert(!current.push(chars[i]).contains('*')) by {
                if current.push(chars[i]).contains('*') {
                    let k = choose|k: int|
                        0 <= k < current.push(chars[i]).len() && current.push(chars[i])[k] == '*';
                    assert(k < current.len());
                    assert(current[k] == '*');
                }
            }
            lemma_segments_from(chars, i + 1, current.push(chars[i]), bold, italic);
            assert(current.push(chars[i]) + without_asterisks(chars.skip(i + 1)) =~= current + (
            seq![chars[i]] + without_asterisks(chars.skip(i + 1))));
        }
    }
}

/// Parsing a line into emphasis runs loses only the `*` markers: the runs'
/// texts, joined, are the line without its `*` characters, and no run is
/// empty or holds a `*`.
pub proof fn inline_segments_keep_the_text(text: Seq<char>)
    ensures
        joined_texts(inline_segments(text)) == without_asterisks(text),
        clean_segments(inline_segments(text)),
{
    assert(text.skip(0) =~= text);
    lemma_segments_from(text, 0, Seq::empty(), false, false);
    assert(Seq::<char>::empty() + without_asterisks(text) =~= without_asterisks(text));
}

/// The all-sequences CSV export is made of the per-sequence exports: its
/// rows are, in sequence order, exactly the rows that exporting each
/// sequence alone (under its index) gives, and adding a sequence at the end
/// appends that sequence's rows and changes nothing before them.
pub proof fn all_sequences_csv_is_made_of_sequence_exports(
    items: Seq<SequenceItemView>,
    extra: SequenceItemView,
)
    ensures
        csv_rows_of_sequences(seq![extra], 1) == csv_rows(0, extra, extra.points.len() as int),
        csv_rows_of_sequences(items.push(extra), items.len() + 1int) == csv_rows_of_sequences(
            items,
            items.len() as int,
        ) + csv_rows(items.len() as int, extra, extra.points.len() as int),
{
    lemma_rows_of_prefix(items, extra, items.len() as int);
    assert(csv_rows_of_sequences(seq![extra], 0) == Seq::<char>::empty());
    assert(Seq::<char>::empty() + csv_rows(0, extra, extra.points.len() as int) =~= csv_rows(
        0,
        extra,
        extra.points.len() as int,
    ));
}

proof fn lemma_rows_of_prefix(items: Seq<SequenceItemView>, extra: SequenceItemView, m: int)
    requires
        0 <= m <= items.len(),
    ensures
        csv_rows_of_sequences(items.push(extra), m) == csv_rows_of_sequences(items, m),
    decreases m,
{
    if m > 0 {
        lemma_rows_of_prefix(items, extra, m - 1);
        assert(items.push(extra)[m - 1] == items[m - 1]);
    }
}

/// A color saved to a project file comes back unchanged when the file is
/// loaded: reading its stored channels gives the same color.
pub proof fn saved_color_comes_back(color: ColorStyle)
    ensures
        color_of_channels(channels_of(color)) == color,
{
}

} // verus!
