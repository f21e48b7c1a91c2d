//! What the exporters compute: file-name sanitising, CSV text for point
//! sequences, whether an overlay has anything to show, and the filled-circle
//! stamp that overlay rasterisation is built from.
use vstd::prelude::*;

use crate::csv_shape::{
    csv_records, csv_separators, in_quotes_after, lemma_append_comma, lemma_append_decimal,
    lemma_append_field, lemma_append_newline, lemma_append_plain,
    lemma_header_shape, plain_text, total_points,
};
use crate::editor::{SequenceItem, SequenceItemView};
use crate::model::ColorStyle;
use crate::text::{
    chars_of, decimal_text, owned_string, push_char, push_signed, push_str,
    push_unsigned, string_from_range, trim_chars, trimmed_range,
};

verus! {

/// Whether `c` is replaced by `_` in a file name.
pub open spec fn is_unsafe_file_name_char(c: char) -> bool {
    c == '/' || c == '\\' || c == ':' || c == '*' || c == '?' || c == '"' || c == '<' || c == '>'
        || c == '|'
}

/// `c`, or `_` when `c` is unsafe in a file name.
pub open spec fn file_name_char(c: char) -> char {
    if is_unsafe_file_name_char(c) {
        '_'
    } else {
        c
    }
}

/// The file-name-safe form of `name`: unsafe characters become `_`, the
/// result is trimmed, and an empty result becomes "export".
pub open spec fn sanitized_file_name(name: Seq<char>) -> Seq<char> {
    let trimmed = trim_chars(name.map_values(|c: char| file_name_char(c)));
    if trimmed.len() == 0 {
        "export"@
    } else {
        trimmed
    }
}

/// Sanitize a string so it can safely be used as a file name.
///
/// Characters that are invalid or problematic in file names on desktop
/// operating systems (`/ \ : * ? " < > |`) become `_`; surrounding whitespace
/// is removed; a name with nothing left becomes "export".
pub fn sanitize_file_name(name: &str) -> (r: String)
    ensures
        r@ == sanitized_file_name(name@),
{
    let source = chars_of(name);
    let mut mapped: Vec<char> = Vec::new();
    let n = source.len();
    let mut i: usize = 0;
    while i < n
        invariant
            i <= n,
            n == source@.len(),
            mapped@ == source@.take(i as int).map_values(|c: char| file_name_char(c)),
        decreases n - i,
    {
        let c = source[i];
        let safe = if c == '/' || c == '\\' || c == ':' || c == '*' || c == '?' || c == '"' || c
            == '<' || c == '>' || c == '|' {
            '_'
        } else {
            c
        };
        mapped.push(safe);
        assert(source@.take(i + 1).map_values(|c: char| file_name_char(c)) =~= source@.take(
            i as int,
        ).map_values(|c: char| file_name_char(c)).push(file_name_char(c)));
        i = i + 1;
    }
    assert(source@.take(n as int) =~= source@);
    let (start, end) = trimmed_range(&mapped);
    if start == end {
        owned_string("export")
    } else {
        string_from_range(&mapped, start, end)
    }
}

/// `s` with every double quote doubled.
pub open spec fn doubled_quotes(s: Seq<char>) -> Seq<char>
    decreases s.len(),
{
    if s.len() == 0 {
        Seq::empty()
    } else {
        doubled_quotes(s.drop_last()) + if s.last() == '"' {
            seq!['"', '"']
        } else {
            seq![s.last()]
        }
    }
}

/// Whether a CSV field must be enclosed in quotes.
pub open spec fn needs_csv_quotes(s: Seq<char>) -> bool {
    s.contains(',') || s.contains('"') || s.contains('\n')
}

/// `value` as one CSV field: double quotes are doubled, and a field that
/// contains a comma, a quote or a newline is enclosed in quotes.
pub open spec fn csv_field(value: Seq<char>) -> Seq<char> {
    let escaped = doubled_quotes(value);
    if needs_csv_quotes(escaped) {
        seq!['"'] + escaped + seq!['"']
    } else {
        escaped
    }
}

/// Escape a string for use as one CSV field.
///
/// Double quotes are doubled, and fields containing a comma, a quote or a
/// newline are quoted.
pub fn csv_escape(value: &str) -> (r: String)
    ensures
        r@ == csv_field(value@),
{
    let source = chars_of(value);
    let n = source.len();
    let mut escaped = String::new();
    let mut needs_quotes = false;
    let mut i: usize = 0;
    while i < n
        invariant
            i <= n,
            n == source@.len(),
            escaped@ == doubled_quotes(source@.take(i as int)),
            needs_quotes == needs_csv_quotes(escaped@),
        decreases n - i,
    {
        let c = source[i];
        let ghost before = escaped@;
        if c == '"' {
            push_char(&mut escaped, '"');
            push_char(&mut escaped, '"');
            needs_quotes = true;
            assert(escaped@ =~= before + seq!['"', '"']);
            assert(escaped@.contains('"')) by {
                assert(escaped@[escaped@.len() - 1] == '"');
            }
        } else {
            push_char(&mut escaped, c);
            assert(escaped@ =~= before + seq![c]);
            if c == ',' || c == '\n' {
                needs_quotes = true;
                assert(escaped@[escaped@.len() - 1] == c);
            }
            assert(needs_quotes == needs_csv_quotes(escaped@)) by {
                if !(c == ',' || c == '\n') {
                    assert forall|x: char|
                        (x == ',' || x == '"' || x == '\n') implies escaped@.contains(x)
                        == before.contains(x) by {
                        if escaped@.contains(x) {
                            let k = choose|k: int| 0 <= k < escaped@.len() && escaped@[k] == x;
                            assert(k < before.len());
                            assert(before[k] == x);
                        }
                        if before.contains(x) {
                            let k = choose|k: int| 0 <= k < before.len() && before[k] == x;
                            assert(escaped@[k] == x);
                        }
                    }
                }
            }
        }
        assert(source@.take(i + 1).drop_last() =~= source@.take(i as int));
        i = i + 1;
    }
    assert(source@.take(n as int) =~= source@);
    if needs_quotes {
        let mut quoted = String::new();
        push_char(&mut quoted, '"');
        push_str(&mut quoted, escaped.as_str());
        push_char(&mut quoted, '"');
        assert(quoted@ =~= seq!['"'] + escaped@ + seq!['"']);
        quoted
    } else {
        escaped
    }
}

/// The text that `format!("{:.3}", position.x)` gives: the horizontal
/// coordinate with three decimals.
pub uninterp spec fn x_csv_text(position: egui::Pos2) -> Seq<char>;

/// The text that `format!("{:.3}", position.y)` gives: the vertical
/// coordinate with three decimals.
pub uninterp spec fn y_csv_text(position: egui::Pos2) -> Seq<char>;

/// The horizontal coordinate of `position` with three decimals, as
/// `format!` writes it; the text depends on the position alone.
#[verifier::external_body]
fn x_text(position: &egui::Pos2) -> (t: String)
    ensures
        t@ == x_csv_text(*position),
        plain_text(t@),
{
    format!("{:.3}", position.x)
}

/// The vertical coordinate of `position` with three decimals, as `format!`
/// writes it; the text depends on the position alone.
#[verifier::external_body]
fn y_text(position: &egui::Pos2) -> (t: String)
    ensures
        t@ == y_csv_text(*position),
        plain_text(t@),
{
    format!("{:.3}", position.y)
}

/// The first line of every CSV export.
pub open spec fn csv_header() -> Seq<char> {
    "sequence_index,sequence_name,start_value,point_index,point_value,x,y\n"@
}

/// The CSV row of point `point_index` of `item`, the sequence at `sequence_index`.
pub open spec fn csv_row(sequence_index: int, item: SequenceItemView, point_index: int) -> Seq<
    char,
> {
    decimal_text(sequence_index) + ","@ + csv_field(item.name) + ","@ + decimal_text(
        item.start_value as int,
    ) + ","@ + decimal_text(point_index) + ","@ + decimal_text(
        item.points[point_index].value as int,
    ) + ","@ + x_csv_text(item.points[point_index].position) + ","@ + y_csv_text(
        item.points[point_index].position,
    ) + "\n"@
}

/// The CSV rows of the first `n` points of `item`.
pub open spec fn csv_rows(sequence_index: int, item: SequenceItemView, n: int) -> Seq<char>
    decreases n,
{
    if n <= 0 {
        Seq::empty()
    } else {
        csv_rows(sequence_index, item, n - 1) + csv_row(sequence_index, item, n - 1)
    }
}

/// The CSV rows of all points of the first `m` sequences.
pub open spec fn csv_rows_of_sequences(items: Seq<SequenceItemView>, m: int) -> Seq<char>
    decreases m,
{
    if m <= 0 {
        Seq::empty()
    } else {
        csv_rows_of_sequences(items, m - 1) + csv_rows(
            m - 1,
            items[m - 1],
            items[m - 1].points.len() as int,
        )
    }
}

/// Appending the first three fields of a CSV row (sequence index, name,
/// start value), each followed by a comma, adds three separators.
proof fn lemma_row_head(s: Seq<char>, sequence_index: int, name: Seq<char>, start_value: int)
    requires
        !in_quotes_after(s, false),
        sequence_index >= 0,
    ensures
        ({
            let t = s + decimal_text(sequence_index) + ","@ + csv_field(name) + ","@
                + decimal_text(start_value) + ","@;
            &&& !in_quotes_after(t, false)
            &&& csv_records(t) == csv_records(s)
            &&& csv_separators(t) == csv_separators(s) + 3
        }),
{
    let s1 = s + decimal_text(sequence_index);
    lemma_append_decimal(s, sequence_index);
    let s2 = s1 + ","@;
    lemma_append_comma(s1);
    let s3 = s2 + csv_field(name);
    lemma_append_field(s2, name);
    let s4 = s3 + ","@;
    lemma_append_comma(s3);
    let s5 = s4 + decimal_text(start_value);
    lemma_append_decimal(s4, start_value);
    lemma_append_comma(s5);
}

/// Appending the last four fields of a CSV row (point index, point value and
/// the two coordinates, separated by commas) and the line break adds three
/// separators and ends one record.
proof fn lemma_row_tail(s: Seq<char>, point_index: int, value: int, x: Seq<char>, y: Seq<char>)
    requires
        !in_quotes_after(s, false),
        plain_text(x),
        plain_text(y),
    ensures
        ({
            let t = s + decimal_text(point_index) + ","@ + decimal_text(value) + ","@ + x + ","@
                + y + "\n"@;
            &&& !in_quotes_after(t, false)
            &&& csv_records(t) == csv_records(s) + 1
            &&& csv_separators(t) == csv_separators(s) + 3
        }),
{
    let s1 = s + decimal_text(point_index);
    lemma_append_decimal(s, point_index);
    let s2 = s1 + ","@;
    lemma_append_comma(s1);
    let s3 = s2 + decimal_text(value);
    lemma_append_decimal(s2, value);
    let s4 = s3 + ","@;
    lemma_append_comma(s3);
    let s5 = s4 + x;
    lemma_append_plain(s4, x);
    let s6 = s5 + ","@;
    lemma_append_comma(s5);
    let s7 = s6 + y;
    lemma_append_plain(s6, y);
    lemma_append_newline(s7);
}

/// Appends the first three fields of a CSV row, each followed by a comma.
fn push_row_head(csv: &mut String, sequence_index: usize, name: &str, start_value: i32)
    ensures
        final(csv)@ == old(csv)@ + decimal_text(sequence_index as int) + ","@ + name@ + ","@
            + decimal_text(start_value as int) + ","@,
{
    let ghost s0 = csv@;
    push_unsigned(csv, sequence_index as u64);
    push_str(csv, ",");
    push_str(csv, name);
    push_str(csv, ",");
    push_signed(csv, start_value as i64);
    push_str(csv, ",");
    assert(csv@ =~= s0 + decimal_text(sequence_index as int) + ","@ + name@ + ","@
        + decimal_text(start_value as int) + ","@);
}

/// Appends the last four fields of a CSV row, separated by commas, and the
/// line break.
fn push_row_tail(csv: &mut String, point_index: usize, value: i32, x: &str, y: &str)
    ensures
        final(csv)@ == old(csv)@ + decimal_text(point_index as int) + ","@ + decimal_text(
            value as int,
        ) + ","@ + x@ + ","@ + y@ + "\n"@,
{
    let ghost s0 = csv@;
    push_unsigned(csv, point_index as u64);
    push_str(csv, ",");
    push_signed(csv, value as i64);
    push_str(csv, ",");
    push_str(csv, x);
    push_str(csv, ",");
    push_str(csv, y);
    push_str(csv, "\n");
    assert(csv@ =~= s0 + decimal_text(point_index as int) + ","@ + decimal_text(value as int)
        + ","@ + x@ + ","@ + y@ + "\n"@);
}

/// Appends the CSV row of point `i` of `sequence`: one record of seven fields.
fn push_csv_row(
    csv: &mut String,
    sequence_index: usize,
    name: &String,
    sequence: &SequenceItem,
    i: usize,
)
    requires
        i < sequence.points@.len(),
        name@ == csv_field(sequence.name@),
        !in_quotes_after(old(csv)@, false),
    ensures
        final(csv)@ == old(csv)@ + csv_row(sequence_index as int, sequence@, i as int),
        !in_quotes_after(final(csv)@, false),
        csv_records(final(csv)@) == csv_records(old(csv)@) + 1,
        csv_separators(final(csv)@) == csv_separators(old(csv)@) + 6,
{
    let point = sequence.points[i];
    push_row_head(csv, sequence_index, name.as_str(), sequence.start_value);
    let ghost head = csv@;
    proof {
        lemma_row_head(old(csv)@, sequence_index as int, sequence.name@, sequence.start_value as int);
    }
    let x = x_text(&point.position);
    let y = y_text(&point.position);
    push_row_tail(csv, i, point.value, x.as_str(), y.as_str());
    proof {
        lemma_row_tail(head, i as int, point.value as int, x@, y@);
        lemma_row_pieces(old(csv)@, sequence_index as int, sequence@, i as int);
    }
}

/// A CSV row is its head (index, name, start value) followed by its tail
/// (point index, value, coordinates, line break).
proof fn lemma_row_pieces(s: Seq<char>, sequence_index: int, item: SequenceItemView, i: int)
    ensures
        s + csv_row(sequence_index, item, i) == s + decimal_text(sequence_index) + ","@
            + csv_field(item.name) + ","@ + decimal_text(item.start_value as int) + ","@
            + decimal_text(i) + ","@ + decimal_text(item.points[i].value as int) + ","@
            + x_csv_text(item.points[i].position) + ","@ + y_csv_text(item.points[i].position)
            + "\n"@,
{
    assert(s + csv_row(sequence_index, item, i) =~= s + decimal_text(sequence_index) + ","@
        + csv_field(item.name) + ","@ + decimal_text(item.start_value as int) + ","@
        + decimal_text(i) + ","@ + decimal_text(item.points[i].value as int) + ","@
        + x_csv_text(item.points[i].position) + ","@ + y_csv_text(item.points[i].position)
        + "\n"@);
}

/// Appends the CSV rows of all points of `sequence`: one record of seven
/// fields per point.
fn push_csv_rows(csv: &mut String, sequence_index: usize, sequence: &SequenceItem)
    requires
        !in_quotes_after(old(csv)@, false),
    ensures
        final(csv)@ == old(csv)@ + csv_rows(
            sequence_index as int,
            sequence@,
            sequence.points@.len() as int,
        ),
        !in_quotes_after(final(csv)@, false),
        csv_records(final(csv)@) == csv_records(old(csv)@) + sequence.points@.len(),
        csv_separators(final(csv)@) == csv_separators(old(csv)@) + 6 * sequence.points@.len(),
{
    let name = csv_escape(sequence.name.as_str());
    let n = sequence.points.len();
    let mut i: usize = 0;
    while i < n
        invariant
            i <= n,
            n == sequence.points@.len(),
            name@ == csv_field(sequence.name@),
            csv@ == old(csv)@ + csv_rows(sequence_index as int, sequence@, i as int),
            !in_quotes_after(csv@, false),
            csv_records(csv@) == csv_records(old(csv)@) + i,
            csv_separators(csv@) == csv_separators(old(csv)@) + 6 * i,
        decreases n - i,
    {
        let ghost before = csv@;
        push_csv_row(csv, sequence_index, &name, sequence, i);
        assert(csv@ =~= old(csv)@ + csv_rows(sequence_index as int, sequence@, i + 1));
        i = i + 1;
    }
}

/// Build the CSV export of one sequence: a header line, then one row per
/// point with the sequence index, name and start value repeated on every row.
pub fn build_csv_for_selected_sequence(sequence_index: usize, sequence: &SequenceItem) -> (r:
    String)
    ensures
        r@ == csv_header() + csv_rows(
            sequence_index as int,
            sequence@,
            sequence.points@.len() as int,
        ),
        csv_records(r@) == 1 + sequence.points@.len(),
        csv_separators(r@) == 6 * (1 + sequence.points@.len()),
        !in_quotes_after(r@, false),
{
    let mut csv = owned_string(
        "sequence_index,sequence_name,start_value,point_index,point_value,x,y\n",
    );
    proof {
        lemma_header_shape();
    }
    push_csv_rows(&mut csv, sequence_index, sequence);
    csv
}

/// Build the CSV export of all sequences: a header line, then one row per
/// point of every sequence, in sequence order.
pub fn build_csv_for_all_sequences(sequences: &[SequenceItem]) -> (r: String)
    ensures
        r@ == csv_header() + csv_rows_of_sequences(
            sequences@.map_values(|item: SequenceItem| item@),
            sequences@.len() as int,
        ),
        csv_records(r@) == 1 + total_points(
            sequences@.map_values(|item: SequenceItem| item@),
            sequences@.len() as int,
        ),
        csv_separators(r@) == 6 * (1 + total_points(
            sequences@.map_values(|item: SequenceItem| item@),
            sequences@.len() as int,
        )),
        !in_quotes_after(r@, false),
{
    let ghost items = sequences@.map_values(|item: SequenceItem| item@);
    let mut csv = owned_string(
        "sequence_index,sequence_name,start_value,point_index,point_value,x,y\n",
    );
    proof {
        lemma_header_shape();
    }
    let m = sequences.len();
    let mut k: usize = 0;
    while k < m
        invariant
            k <= m,
            m == sequences@.len(),
            items == sequences@.map_values(|item: SequenceItem| item@),
            csv@ == csv_header() + csv_rows_of_sequences(items, k as int),
            !in_quotes_after(csv@, false),
            csv_records(csv@) == 1 + total_points(items, k as int),
            csv_separators(csv@) == 6 * (1 + total_points(items, k as int)),
        decreases m - k,
    {
        let ghost before = csv@;
        push_csv_rows(&mut csv, k, &sequences[k]);
        assert(items[k as int] == sequences@[k as int]@);
        assert(csv@ =~= csv_header() + csv_rows_of_sequences(items, k + 1));
        k = k + 1;
    }
    csv
}

/// Whether `item` contributes something to an overlay: it is visible and has
/// a line segment, or a point while points are drawn.
pub open spec fn has_overlay_content(item: SequenceItemView, include_points: bool) -> bool {
    item.visible && (item.points.len() >= 2 || (include_points && item.points.len() > 0))
}

/// Whether looking at the listed sequences in order, stopping at the first
/// one with overlay content, only touches existing sequences.
pub open spec fn indices_valid_until_content(
    items: Seq<SequenceItemView>,
    indices: Seq<usize>,
    include_points: bool,
) -> bool {
    forall|j: int|
        0 <= j < indices.len() && (forall|k: int|
            0 <= k < j ==> #[trigger] indices[k] < items.len() && !has_overlay_content(
                items[indices[k] as int],
                include_points,
            )) ==> #[trigger] indices[j] < items.len()
}

/// Whether at least one of the listed sequences has something to export:
/// it is visible and has at least one line segment, or at least one point
/// while points are exported.
pub fn has_visible_overlay_content(
    sequences: &[SequenceItem],
    sequence_indices: &[usize],
    include_points: bool,
) -> (r: bool)
    requires
        indices_valid_until_content(
            sequences@.map_values(|item: SequenceItem| item@),
            sequence_indices@,
            include_points,
        ),
    ensures
        r == exists|j: int|
            0 <= j < sequence_indices@.len() && #[trigger] sequence_indices@[j] < sequences@.len()
                && has_overlay_content(
                sequences@[sequence_indices@[j] as int]@,
                include_points,
            ),
{
    let ghost items = sequences@.map_values(|item: SequenceItem| item@);
    let n = sequence_indices.len();
    let mut j: usize = 0;
    while j < n
        invariant
            j <= n,
            n == sequence_indices@.len(),
            items == sequences@.map_values(|item: SequenceItem| item@),
            indices_valid_until_content(items, sequence_indices@, include_points),
            forall|k: int|
                0 <= k < j ==> #[trigger] sequence_indices@[k] < items.len()
                    && !has_overlay_content(items[sequence_indices@[k] as int], include_points),
        decreases n - j,
    {
        let index = sequence_indices[j];
        assert(index < sequences@.len());
        let sequence = &sequences[index];
        assert(items[index as int] == sequence@);
        let len = sequence.points.len();
        if sequence.visible && (len >= 2 || (include_points && len > 0)) {
            return true;
        }
        j = j + 1;
    }
    proof {
        assert forall|jj: int|
            0 <= jj < sequence_indices@.len() && #[trigger] sequence_indices@[jj]
                < sequences@.len() implies !has_overlay_content(
            sequences@[sequence_indices@[jj] as int]@,
            include_points,
        ) by {
            assert(items[sequence_indices@[jj] as int] == sequences@[sequence_indices@[jj] as int]@);
        }
    }
    false
}

/// One thing an overlay export draws for a sequence.
#[derive(Clone, Copy, Debug, PartialEq, Eq, Structural)]
pub enum OverlayMark {
    /// The line from point `from` to point `from + 1` of sequence `sequence`.
    Segment { sequence: usize, from: usize },
    /// The marker of point `point` of sequence `sequence`.
    Marker { sequence: usize, point: usize },
}

/// The segments between the first `n + 1` points of sequence `s`, in order.
pub open spec fn segment_marks(s: usize, n: int) -> Seq<OverlayMark>
    decreases n,
{
    if n <= 0 {
        Seq::empty()
    } else {
        segment_marks(s, n - 1).push(OverlayMark::Segment { sequence: s, from: (n - 1) as usize })
    }
}

/// The markers of the first `n` points of sequence `s`, in order.
pub open spec fn marker_marks(s: usize, n: int) -> Seq<OverlayMark>
    decreases n,
{
    if n <= 0 {
        Seq::empty()
    } else {
        marker_marks(s, n - 1).push(OverlayMark::Marker { sequence: s, point: (n - 1) as usize })
    }
}

/// What an overlay draws for sequence `s`: nothing when it is hidden;
/// otherwise a segment between each two consecutive points, then, when
/// points are drawn, a marker on every point.
pub open spec fn sequence_marks(s: usize, item: SequenceItemView, include_points: bool) -> Seq<
    OverlayMark,
> {
    if !item.visible {
        Seq::empty()
    } else {
        segment_marks(s, item.points.len() - 1) + if include_points {
            marker_marks(s, item.points.len() as int)
        } else {
            Seq::empty()
        }
    }
}

/// What an overlay draws for the first `k` of `indices`, in that order.
pub open spec fn overlay_marks(
    items: Seq<SequenceItemView>,
    indices: Seq<usize>,
    k: int,
    include_points: bool,
) -> Seq<OverlayMark>
    decreases k,
{
    if k <= 0 {
        Seq::empty()
    } else {
        overlay_marks(items, indices, k - 1, include_points) + sequence_marks(
            indices[k - 1],
            items[indices[k - 1] as int],
            include_points,
        )
    }
}

/// The drawing plan of an overlay export: for each listed sequence, in the
/// order listed, its segments and then (when points are drawn) its markers;
/// hidden sequences draw nothing.
pub fn plan_overlay(
    sequences: &[SequenceItem],
    sequence_indices: &[usize],
    include_points: bool,
) -> (r: Vec<OverlayMark>)
    requires
        forall|j: int|
            0 <= j < sequence_indices@.len() ==> #[trigger] sequence_indices@[j] < sequences@.len(),
    ensures
        r@ == overlay_marks(
            sequences@.map_values(|item: SequenceItem| item@),
            sequence_indices@,
            sequence_indices@.len() as int,
            include_points,
        ),
{
    let ghost items = sequences@.map_values(|item: SequenceItem| item@);
    let mut marks: Vec<OverlayMark> = Vec::new();
    let n = sequence_indices.len();
    let mut k: usize = 0;
    while k < n
        invariant
            k <= n,
            n == sequence_indices@.len(),
            items == sequences@.map_values(|item: SequenceItem| item@),
            forall|j: int|
                0 <= j < sequence_indices@.len() ==> #[trigger] sequence_indices@[j]
                    < sequences@.len(),
            marks@ == overlay_marks(items, sequence_indices@, k as int, include_points),
        decreases n - k,
    {
        let s = sequence_indices[k];
        assert(sequence_indices@[k as int] < sequences@.len());
        let sequence = &sequences[s];
        let ghost item = items[s as int];
        assert(item == sequence@);
        let ghost before = marks@;
        if sequence.visible {
            let len = sequence.points.len();
            let mut i: usize = 1;
            while i < len
                invariant
                    1 <= i,
                    len == 0 ==> i == 1,
                    len > 0 ==> i <= len,
                    marks@ == before + segment_marks(s, i - 1),
                decreases len - i,
            {
                marks.push(OverlayMark::Segment { sequence: s, from: i - 1 });
                assert(marks@ =~= before + segment_marks(s, i as int));
                i = i + 1;
            }
            assert(segment_marks(s, i - 1) == segment_marks(s, len - 1)) by {
                if len == 0 {
                    assert(segment_marks(s, 0) == Seq::<OverlayMark>::empty());
                    assert(segment_marks(s, -1) == Seq::<OverlayMark>::empty());
                }
            }
            let ghost middle = marks@;
            if include_points {
                let mut p: usize = 0;
                while p < len
                    invariant
                        p <= len,
                        marks@ == middle + marker_marks(s, p as int),
                    decreases len - p,
                {
                    marks.push(OverlayMark::Marker { sequence: s, point: p });
                    assert(marks@ =~= middle + marker_marks(s, p + 1));
                    p = p + 1;
                }
                assert(marks@ =~= before + sequence_marks(s, item, include_points));
            } else {
                assert(marks@ =~= before + sequence_marks(s, item, include_points));
            }
        } else {
            assert(marks@ =~= before + sequence_marks(s, item, include_points));
        }
        k = k + 1;
    }
    marks
}

/// The pixel (x, y) of a row-major buffer with four bytes (red, green, blue,
/// alpha) per pixel.
pub open spec fn raw_pixel(data: Seq<u8>, width: int, x: int, y: int) -> ColorStyle {
    let i = 4 * (y * width + x);
    ColorStyle { r: data[i], g: data[i + 1], b: data[i + 2], a: data[i + 3] }
}

/// All pixels of a `width` x `height` row-major RGBA buffer, keyed by (x, y).
pub open spec fn raw_pixels(data: Seq<u8>, width: u32, height: u32) -> Map<(u32, u32), ColorStyle> {
    Map::new(
        |k: (u32, u32)| k.0 < width && k.1 < height,
        |k: (u32, u32)| raw_pixel(data, width as int, k.0 as int, k.1 as int),
    )
}

/// An RGBA raster in the layout of the image crate's `RgbaImage`: rows top to
/// bottom, four bytes per pixel.
pub struct RasterImage {
    /// Width in pixels.
    pub width: u32,
    /// Height in pixels.
    pub height: u32,
    /// Pixel data; the first `4 * width * height` bytes hold the pixels.
    pub data: Vec<u8>,
}

proof fn lemma_pixel_index(width: int, height: int, x: int, y: int)
    by (nonlinear_arith)
    requires
        0 <= x < width,
        0 <= y < height,
    ensures
        0 <= 4 * (y * width + x),
        4 * (y * width + x) + 4 <= 4 * width * height,
{
}

proof fn lemma_pixel_index_distinct(width: int, x1: int, y1: int, x2: int, y2: int)
    by (nonlinear_arith)
    requires
        0 <= x1 < width,
        0 <= x2 < width,
        0 <= y1,
        0 <= y2,
        y1 * width + x1 == y2 * width + x2,
    ensures
        x1 == x2 && y1 == y2,
{
    if y1 > y2 {
        assert(y1 * width >= (y2 + 1) * width);
    } else if y2 > y1 {
        assert(y2 * width >= (y1 + 1) * width);
    }
}

/// What `image::load_from_memory` followed by `to_rgba8` gives for `bytes`:
/// width, height and RGBA pixel data, or the text of the decoding error.
pub uninterp spec fn decoded_rgba(bytes: Seq<u8>) -> Result<(u32, u32, Seq<u8>), Seq<char>>;

/// Decode an encoded image file (PNG, JPEG, BMP, ...) into RGBA pixels with
/// `image::load_from_memory` and `DynamicImage::to_rgba8`; on failure, the
/// error's text. The outcome depends on the bytes alone; like every
/// `ImageBuffer`, the result holds at least `4 * width * height` bytes.
#[verifier::external_body]
pub(crate) fn decode_image_rgba(bytes: &[u8]) -> (r: Result<RasterImage, String>)
    ensures
        match (r, decoded_rgba(bytes@)) {
            (Ok(img), Ok((w, h, data))) => img.width == w && img.height == h && img.data@ == data,
            (Err(e), Err(t)) => e@ == t,
            _ => false,
        },
        r matches Ok(img) ==> img.wf(),
{
    match image::load_from_memory(bytes) {
        Ok(decoded) => {
            let rgba = decoded.to_rgba8();
            let (width, height) = (rgba.width(), rgba.height());
            Ok(RasterImage { width, height, data: rgba.into_raw() })
        },
        Err(err) => Err(err.to_string()),
    }
}

/// Decode an imported image file into RGBA pixels: its width, height and
/// pixel data, or the text of the decoding error.
pub fn decode_image(bytes: &[u8]) -> (r: Result<RasterImage, String>)
    ensures
        match (r, decoded_rgba(bytes@)) {
            (Ok(img), Ok((w, h, data))) => img.width == w && img.height == h && img.data@ == data,
            (Err(e), Err(t)) => e@ == t,
            _ => false,
        },
        r matches Ok(img) ==> img.wf(),
{
    decode_image_rgba(bytes)
}

impl RasterImage {
    /// Whether the buffer is large enough for all pixels of the image.
    pub open spec fn wf(&self) -> bool {
        4 * self.width * self.height <= self.data@.len()
    }

    /// The pixels of the image, keyed by (x, y).
    pub open spec fn pixels(&self) -> Map<(u32, u32), ColorStyle> {
        raw_pixels(self.data@, self.width, self.height)
    }

    /// A fully transparent `width` x `height` image.
    pub fn transparent(width: u32, height: u32) -> (r: RasterImage)
        requires
            4 * width * height <= usize::MAX,
        ensures
            r.wf(),
            r.data@.len() == 4 * width * height,
            r.width == width,
            r.height == height,
            forall|k: (u32, u32)|
                #[trigger] r.pixels().dom().contains(k) ==> r.pixels()[k] == (ColorStyle {
                    r: 0,
                    g: 0,
                    b: 0,
                    a: 0,
                }),
    {
        assert((width as int) * (height as int) <= 4 * width * height) by (nonlinear_arith);
        let area = (width as usize) * (height as usize);
        assert(4 * width * height == 4 * ((width as int) * (height as int))) by (nonlinear_arith);
        let len = 4 * area;
        let mut data: Vec<u8> = Vec::new();
        let mut i: usize = 0;
        while i < len
            invariant
                i <= len,
                data@.len() == i,
                forall|j: int| 0 <= j < i ==> data@[j] == 0,
            decreases len - i,
        {
            data.push(0);
            i = i + 1;
        }
        let r = RasterImage { width, height, data };
        assert forall|k: (u32, u32)| #[trigger] r.pixels().dom().contains(k) implies r.pixels()[k]
            == (ColorStyle { r: 0, g: 0, b: 0, a: 0 }) by {
            lemma_pixel_index(width as int, height as int, k.0 as int, k.1 as int);
        }
        r
    }

    /// Set the pixel at (x, y) to `color`, as `ImageBuffer::put_pixel` does.
    pub fn put_pixel(&mut self, x: u32, y: u32, color: ColorStyle)
        requires
            old(self).wf(),
            x < old(self).width,
            y < old(self).height,
        ensures
            final(self).wf(),
            final(self).width == old(self).width,
            final(self).height == old(self).height,
            final(self).pixels() == old(self).pixels().insert((x, y), color),
    {
        proof {
            lemma_pixel_index(self.width as int, self.height as int, x as int, y as int);
        }
        let len = self.data.len();
        assert((y as int) * (self.width as int) <= (y as int) * (self.width as int) + (x as int));
        let i = 4 * ((y as usize) * (self.width as usize) + (x as usize));
        self.data.set(i, color.r);
        self.data.set(i + 1, color.g);
        self.data.set(i + 2, color.b);
        self.data.set(i + 3, color.a);
        assert forall|k: (u32, u32)| #[trigger]
            old(self).pixels().dom().contains(k) implies self.pixels()[k] == old(
            self,
        ).pixels().insert((x, y), color)[k] by {
            lemma_pixel_index(self.width as int, self.height as int, k.0 as int, k.1 as int);
            if k != (x, y) {
                if k.1 * self.width + k.0 == y * self.width + x {
                    lemma_pixel_index_distinct(
                        self.width as int,
                        k.0 as int,
                        k.1 as int,
                        x as int,
                        y as int,
                    );
                }
                assert(4 * (k.1 * self.width + k.0) + 4 <= i || i + 4 <= 4 * (k.1 * self.width
                    + k.0));
            }
        }
        assert(self.pixels() =~= old(self).pixels().insert((x, y), color));
    }
}

/// Whether pixel (x, y) lies in the disc of `radius` around the center and
/// inside a `width` x `height` image.
pub open spec fn in_disc(
    center_x: int,
    center_y: int,
    radius: int,
    width: int,
    height: int,
    x: int,
    y: int,
) -> bool {
    &&& 0 <= x < width
    &&& 0 <= y < height
    &&& radius >= 0
    &&& (x - center_x) * (x - center_x) + (y - center_y) * (y - center_y) <= radius * radius
}

/// Whether pixel (x, y) of the disc is painted once the rows above `row`
/// (relative to the center) and the pixels left of `column` in that row are done.
pub open spec fn painted_before(
    center_x: int,
    center_y: int,
    radius: int,
    width: int,
    height: int,
    row: int,
    column: int,
    x: int,
    y: int,
) -> bool {
    &&& in_disc(center_x, center_y, radius, width, height, x, y)
    &&& (y - center_y < row || (y - center_y == row && x - center_x < column))
}

/// `pixels` with every pixel for which `covered` holds set to `color`.
pub open spec fn paint(
    pixels: Map<(u32, u32), ColorStyle>,
    covered: spec_fn(int, int) -> bool,
    color: ColorStyle,
) -> Map<(u32, u32), ColorStyle> {
    Map::new(
        |k: (u32, u32)| pixels.dom().contains(k) || covered(k.0 as int, k.1 as int),
        |k: (u32, u32)|
            if covered(k.0 as int, k.1 as int) {
                color
            } else {
                pixels[k]
            },
    )
}

proof fn lemma_disc_bounds(dx: int, dy: int, r: int)
    by (nonlinear_arith)
    requires
        r >= 0,
        dx * dx + dy * dy <= r * r,
    ensures
        -r <= dx <= r,
        -r <= dy <= r,
{
}

proof fn lemma_radius_bound(r: int)
    by (nonlinear_arith)
    requires
        r >= 0,
        r * r <= 0x7fff_ffff,
    ensures
        r < 46341,
{
}

proof fn lemma_square_bound(d: int, r: int)
    by (nonlinear_arith)
    requires
        -r <= d <= r,
    ensures
        0 <= d * d <= r * r,
{
}

/// Draw a filled circle: every pixel inside the image whose squared distance
/// from the center is at most `radius * radius` gets `color`; a negative
/// radius draws nothing.
pub fn draw_filled_circle(
    image: &mut RasterImage,
    center_x: i32,
    center_y: i32,
    radius: i32,
    color: ColorStyle,
)
    requires
        old(image).wf(),
        radius * radius <= i32::MAX,
        radius >= 0 ==> 2 * (radius * radius) <= i32::MAX,
        radius >= 0 ==> i32::MIN <= center_x - radius && center_x + radius <= i32::MAX,
        radius >= 0 ==> i32::MIN <= center_y - radius && center_y + radius <= i32::MAX,
    ensures
        final(image).wf(),
        final(image).width == old(image).width,
        final(image).height == old(image).height,
        final(image).pixels() == paint(
            old(image).pixels(),
            |x: int, y: int|
                in_disc(
                    center_x as int,
                    center_y as int,
                    radius as int,
                    old(image).width as int,
                    old(image).height as int,
                    x,
                    y,
                ),
            color,
        ),
        forall|x: u32, y: u32|
            x < old(image).width && y < old(image).height ==> #[trigger] final(image).pixels()[(
                x,
                y,
            )] == if radius >= 0 && (x - center_x) * (x - center_x) + (y - center_y) * (y
                - center_y) <= radius * radius {
                color
            } else {
                old(image).pixels()[(x, y)]
            },
{
    let ghost w = image.width as int;
    let ghost h = image.height as int;
    let ghost original = image.pixels();
    let ghost cx = center_x as int;
    let ghost cy = center_y as int;
    let ghost r = radius as int;
    assert(0 <= radius * radius) by (nonlinear_arith);
    let radius_sq = radius * radius;
    if radius < 0 {
        assert(image.pixels() =~= paint(
            original,
            |x: int, y: int| in_disc(cx, cy, r, w, h, x, y),
            color,
        ));
        return;
    }
    proof {
        lemma_radius_bound(r);
        assert forall|k: (u32, u32)|
            !#[trigger] painted_before(cx, cy, r, w, h, -r, -r, k.0 as int, k.1 as int) by {
            if in_disc(cx, cy, r, w, h, k.0 as int, k.1 as int) {
                lemma_disc_bounds(k.0 - cx, k.1 - cy, r);
            }
        }
        assert(image.pixels() =~= paint(
            original,
            |x: int, y: int| painted_before(cx, cy, r, w, h, -r, -r, x, y),
            color,
        ));
    }
    let mut dy: i32 = -radius;
    while dy <= radius
        invariant
            0 <= radius,
            radius_sq == radius * radius,
            2 * (radius * radius) <= i32::MAX,
            radius < 46341,
            i32::MIN <= center_x - radius && center_x + radius <= i32::MAX,
            i32::MIN <= center_y - radius && center_y + radius <= i32::MAX,
            -radius <= dy <= radius + 1,
            w == image.width as int,
            h == image.height as int,
            image.wf(),
            cx == center_x,
            cy == center_y,
            r == radius,
            image.pixels() == paint(
                original,
                |x: int, y: int| painted_before(cx, cy, r, w, h, dy as int, -r, x, y),
                color,
            ),
        decreases radius + 1 - dy,
    {
        let mut dx: i32 = -radius;
        while dx <= radius
            invariant
                0 <= radius,
                radius_sq == radius * radius,
                2 * (radius * radius) <= i32::MAX,
            radius < 46341,
                i32::MIN <= center_x - radius && center_x + radius <= i32::MAX,
                i32::MIN <= center_y - radius && center_y + radius <= i32::MAX,
                -radius <= dy <= radius,
                -radius <= dx <= radius + 1,
                w == image.width as int,
                h == image.height as int,
                image.wf(),
                cx == center_x,
                cy == center_y,
                r == radius,
                image.pixels() == paint(
                    original,
                    |x: int, y: int| painted_before(cx, cy, r, w, h, dy as int, dx as int, x, y),
                    color,
                ),
            decreases radius + 1 - dx,
        {
            proof {
                lemma_square_bound(dx as int, radius as int);
                lemma_square_bound(dy as int, radius as int);
            }
            let ghost before = image.pixels();
            if dx * dx + dy * dy <= radius_sq {
                let x = center_x + dx;
                let y = center_y + dy;
                if x >= 0 && y >= 0 && (x as u32) < image.width && (y as u32) < image.height {
                    image.put_pixel(x as u32, y as u32, color);
                }
            }
            assert(image.pixels() =~= paint(
                original,
                |x: int, y: int|
                    painted_before(cx, cy, r, w, h, dy as int, dx + 1, x, y),
                color,
            ));
            dx = dx + 1;
        }
        assert(image.pixels() =~= paint(
            original,
            |x: int, y: int| painted_before(cx, cy, r, w, h, dy + 1, -r, x, y),
            color,
        )) by {
            assert forall|k: (u32, u32)| #[trigger]
                painted_before(cx, cy, r, w, h, dy as int, r + 1, k.0 as int, k.1 as int)
                    == painted_before(cx, cy, r, w, h, dy + 1, -r, k.0 as int, k.1 as int) by {
                if in_disc(cx, cy, r, w, h, k.0 as int, k.1 as int) {
                    lemma_disc_bounds(k.0 - cx, k.1 - cy, r);
                }
            }
        }
        dy = dy + 1;
    }
    assert(image.pixels() =~= paint(
        original,
        |x: int, y: int| in_disc(cx, cy, r, w, h, x, y),
        color,
    )) by {
        assert forall|k: (u32, u32)| #[trigger]
            painted_before(cx, cy, r, w, h, r + 1, -r, k.0 as int, k.1 as int) == in_disc(
                cx,
                cy,
                r,
                w,
                h,
                k.0 as int,
                k.1 as int,
            ) by {
            if in_disc(cx, cy, r, w, h, k.0 as int, k.1 as int) {
                lemma_disc_bounds(k.0 - cx, k.1 - cy, r);
            }
        }
    }
}

} // verus!
