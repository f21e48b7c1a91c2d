//! The export dialog's settings and the decisions behind each export: which
//! sequences take part, what is refused with which message, the suggested
//! file names and the CSV text.
use vstd::prelude::*;

use crate::editor::{EditorState, SequenceItem, SequenceItemView};
use crate::export_logic::{
    build_csv_for_all_sequences, build_csv_for_selected_sequence, csv_header, csv_rows,
    csv_rows_of_sequences, decode_image_rgba, decoded_rgba, has_overlay_content,
    has_visible_overlay_content, indices_valid_until_content, sanitize_file_name,
    sanitized_file_name, RasterImage,
};
use crate::text::{owned_string, push_str};

verus! {

/// Which sequences an export covers.
#[derive(Clone, Copy, Debug, PartialEq, Eq, Structural)]
pub enum ExportScope {
    SelectedSequence,
    AllSequences,
}

/// Settings of the export dialog.
pub struct ExportDialogState {
    /// Whether the dialog is shown.
    pub open: bool,
    /// Export the points as CSV.
    pub export_points_as_csv: bool,
    /// Export the embedded image as it was imported.
    pub export_image_without_overlay: bool,
    /// Export the image with the sequences drawn on it.
    pub export_image_with_overlay: bool,
    /// Export only the drawn sequences, on a transparent background.
    pub export_overlay_only: bool,
    /// Draw point markers in overlay exports.
    pub include_points_in_overlay: bool,
    /// Which sequences are exported.
    pub scope: ExportScope,
}

impl Default for ExportDialogState {
    /// Closed; exports the image with overlay, with points, for the selected sequence.
    fn default() -> (r: ExportDialogState)
        ensures
            r == (ExportDialogState {
                open: false,
                export_points_as_csv: false,
                export_image_without_overlay: false,
                export_image_with_overlay: true,
                export_overlay_only: false,
                include_points_in_overlay: true,
                scope: ExportScope::SelectedSequence,
            }),
    {
        ExportDialogState {
            open: false,
            export_points_as_csv: false,
            export_image_without_overlay: false,
            export_image_with_overlay: true,
            export_overlay_only: false,
            include_points_in_overlay: true,
            scope: ExportScope::SelectedSequence,
        }
    }
}

/// One export the dialog can run.
#[derive(Clone, Copy, Debug, PartialEq, Eq, Structural)]
pub enum ExportKind {
    /// The points as CSV.
    PointsCsv,
    /// The embedded image as it was imported.
    ImageWithoutOverlay,
    /// The image with the sequences drawn on it.
    ImageWithOverlay,
    /// Only the drawn sequences, on a transparent background.
    OverlayOnly,
}

/// The exports that the dialog's checkboxes select, in the order they run.
pub open spec fn chosen_export_kinds(dialog: ExportDialogState) -> Seq<ExportKind> {
    (if dialog.export_points_as_csv {
        seq![ExportKind::PointsCsv]
    } else {
        Seq::empty()
    }) + (if dialog.export_image_without_overlay {
        seq![ExportKind::ImageWithoutOverlay]
    } else {
        Seq::empty()
    }) + (if dialog.export_image_with_overlay {
        seq![ExportKind::ImageWithOverlay]
    } else {
        Seq::empty()
    }) + (if dialog.export_overlay_only {
        seq![ExportKind::OverlayOnly]
    } else {
        Seq::empty()
    })
}

/// What pressing "Export" runs: the chosen exports in order (CSV, image
/// without overlay, image with overlay, overlay only), or the message when
/// no export is chosen.
pub fn chosen_exports(dialog: &ExportDialogState) -> (r: Result<Vec<ExportKind>, &'static str>)
    ensures
        chosen_export_kinds(*dialog).len() == 0 ==> (r matches Err(m) && m@
            == "No export option selected"@),
        chosen_export_kinds(*dialog).len() > 0 ==> (r matches Ok(v) && v@ == chosen_export_kinds(
            *dialog,
        )),
{
    let mut kinds: Vec<ExportKind> = Vec::new();
    if dialog.export_points_as_csv {
        kinds.push(ExportKind::PointsCsv);
    }
    if dialog.export_image_without_overlay {
        kinds.push(ExportKind::ImageWithoutOverlay);
    }
    if dialog.export_image_with_overlay {
        kinds.push(ExportKind::ImageWithOverlay);
    }
    if dialog.export_overlay_only {
        kinds.push(ExportKind::OverlayOnly);
    }
    assert(kinds@ =~= chosen_export_kinds(*dialog));
    if kinds.len() == 0 {
        Err("No export option selected")
    } else {
        Ok(kinds)
    }
}

/// The sequence indices an export covers: the selected index (if any) or all indices.
pub open spec fn export_indices(scope: ExportScope, selected: Option<usize>, count: nat) -> Seq<
    usize,
> {
    match scope {
        ExportScope::SelectedSequence => match selected {
            Some(i) => seq![i],
            None => Seq::empty(),
        },
        ExportScope::AllSequences => Seq::new(count, |i: int| i as usize),
    }
}

/// The sequence indices that should be exported for `scope`.
pub fn export_sequence_indices(editor: &EditorState, scope: ExportScope) -> (r: Vec<usize>)
    ensures
        r@ == export_indices(scope, editor.selected_sequence, editor.sequences@.len()),
{
    let mut r: Vec<usize> = Vec::new();
    match scope {
        ExportScope::SelectedSequence => {
            if let Some(i) = editor.selected_sequence {
                r.push(i);
            }
            assert(r@ =~= export_indices(scope, editor.selected_sequence, editor.sequences@.len()));
        },
        ExportScope::AllSequences => {
            let n = editor.sequences.len();
            let mut i: usize = 0;
            while i < n
                invariant
                    i <= n,
                    n == editor.sequences@.len(),
                    r@ =~= Seq::new(i as nat, |k: int| k as usize),
                decreases n - i,
            {
                r.push(i);
                i = i + 1;
            }
        },
    }
    r
}

/// What a CSV export of `sequences` for `scope` gives: the suggested file
/// name and the CSV text, or the message that explains why nothing is exported.
pub open spec fn csv_export_outcome(
    sequences: Seq<SequenceItemView>,
    selected: Option<usize>,
    scope: ExportScope,
) -> Result<(Seq<char>, Seq<char>), Seq<char>> {
    match scope {
        ExportScope::SelectedSequence => match selected {
            None => Err("No sequence selected for CSV export"@),
            Some(i) => if i >= sequences.len() {
                Err("Selected sequence is invalid"@)
            } else if sequences[i as int].points.len() == 0 {
                Err("Sequence "@ + sequences[i as int].name + " has no points to export"@)
            } else {
                Ok(
                    (
                        sanitized_file_name(sequences[i as int].name) + ".csv"@,
                        csv_header() + csv_rows(
                            i as int,
                            sequences[i as int],
                            sequences[i as int].points.len() as int,
                        ),
                    ),
                )
            },
        },
        ExportScope::AllSequences => if sequences.len() == 0 {
            Err("There are no sequences to export"@)
        } else if forall|k: int| 0 <= k < sequences.len() ==> #[trigger] sequences[k].points.len()
            == 0 {
            Err("There are no points to export"@)
        } else {
            Ok(
                (
                    "all_sequences.csv"@,
                    csv_header() + csv_rows_of_sequences(sequences, sequences.len() as int),
                ),
            )
        },
    }
}

/// Decide the CSV export for `scope`: `Ok((file name, CSV text))`, or
/// `Err(message)` when there is nothing to export.
pub fn plan_csv_export(editor: &EditorState, scope: ExportScope) -> (r: Result<
    (String, String),
    String,
>)
    ensures
        match (r, csv_export_outcome(editor.sequences_view(), editor.selected_sequence, scope)) {
            (Ok((file, csv)), Ok((f, c))) => file@ == f && csv@ == c,
            (Err(m), Err(t)) => m@ == t,
            _ => false,
        },
{
    match scope {
        ExportScope::SelectedSequence => {
            let i = match editor.selected_sequence {
                None => {
                    return Err(owned_string("No sequence selected for CSV export"));
                },
                Some(i) => i,
            };
            if i >= editor.sequences.len() {
                return Err(owned_string("Selected sequence is invalid"));
            }
            let sequence = &editor.sequences[i];
            if sequence.points.len() == 0 {
                let mut message = owned_string("Sequence ");
                push_str(&mut message, sequence.name.as_str());
                push_str(&mut message, " has no points to export");
                return Err(message);
            }
            let mut file_name = sanitize_file_name(sequence.name.as_str());
            push_str(&mut file_name, ".csv");
            let csv = build_csv_for_selected_sequence(i, sequence);
            Ok((file_name, csv))
        },
        ExportScope::AllSequences => {
            let n = editor.sequences.len();
            if n == 0 {
                return Err(owned_string("There are no sequences to export"));
            }
            let mut has_any_points = false;
            let mut k: usize = 0;
            while k < n
                invariant
                    k <= n,
                    n == editor.sequences@.len(),
                    has_any_points == exists|j: int|
                        0 <= j < k && #[trigger] editor.sequences_view()[j].points.len() != 0,
                decreases n - k,
            {
                if editor.sequences[k].points.len() != 0 {
                    has_any_points = true;
                    assert(editor.sequences_view()[k as int].points.len() != 0);
                }
                k = k + 1;
            }
            if !has_any_points {
                return Err(owned_string("There are no points to export"));
            }
            let csv = build_csv_for_all_sequences(editor.sequences.as_slice());
            assert(editor.sequences@.map_values(|item: SequenceItem| item@)
                =~= editor.sequences_view());
            Ok((owned_string("all_sequences.csv"), csv))
        },
    }
}

/// The base image of an overlay export: the embedded image decoded to RGBA,
/// or the message explaining why there is none.
pub open spec fn overlay_base_outcome(image_bytes: Option<Seq<u8>>) -> Result<
    (u32, u32, Seq<u8>),
    Seq<char>,
> {
    match image_bytes {
        None => Err("No embedded image available for overlay export"@),
        Some(bytes) => match decoded_rgba(bytes) {
            Ok(decoded) => Ok(decoded),
            Err(t) => Err("Failed to decode image for overlay export: "@ + t),
        },
    }
}

/// Decode the embedded image that an overlay is drawn on.
pub fn decode_overlay_base(image_bytes: Option<&[u8]>) -> (r: Result<RasterImage, String>)
    ensures
        match (
            r,
            overlay_base_outcome(
                match image_bytes {
                    Some(b) => Some(b@),
                    None => None,
                },
            ),
        ) {
            (Ok(img), Ok((w, h, data))) => img.width == w && img.height == h && img.data@ == data,
            (Err(m), Err(t)) => m@ == t,
            _ => false,
        },
        r matches Ok(img) ==> img.wf(),
{
    let bytes = match image_bytes {
        None => {
            return Err(owned_string("No embedded image available for overlay export"));
        },
        Some(b) => b,
    };
    match decode_image_rgba(bytes) {
        Ok(img) => Ok(img),
        Err(e) => {
            let mut message = owned_string("Failed to decode image for overlay export: ");
            push_str(&mut message, e.as_str());
            Err(message)
        },
    }
}

/// The transparent base image of an overlay-only export, of the embedded
/// image's size.
pub fn transparent_overlay_base(image_size: Option<(usize, usize)>) -> (r: Result<
    RasterImage,
    &'static str,
>)
    requires
        image_size matches Some((w, h)) ==> 4 * (w as u32) * (h as u32) <= usize::MAX,
    ensures
        image_size is None ==> (r matches Err(m) && m@
            == "No image size available for overlay export"@),
        image_size matches Some((w, h)) ==> (r matches Ok(img) && img.wf() && img.width == w as u32
            && img.height == h as u32 && forall|k: (u32, u32)|
            #[trigger] img.pixels().dom().contains(k) ==> img.pixels()[k] == (
            crate::model::ColorStyle { r: 0, g: 0, b: 0, a: 0 })),
{
    match image_size {
        None => Err("No image size available for overlay export"),
        Some((w, h)) => Ok(RasterImage::transparent(w as u32, h as u32)),
    }
}

/// Whether the sequences an overlay export covers can be looked at without
/// leaving the list: a selected index must name an existing sequence.
pub open spec fn overlay_scope_indexable(editor: EditorState, scope: ExportScope) -> bool {
    scope == ExportScope::SelectedSequence ==> (editor.selected_sequence matches Some(i) ==> i
        < editor.sequences@.len())
}

/// Decide which sequences an overlay export draws: `Ok(indices)`, or the
/// message when no sequence is covered or none has anything to draw.
pub fn check_overlay_scope(editor: &EditorState, scope: ExportScope, include_points: bool) -> (r:
    Result<Vec<usize>, &'static str>)
    requires
        overlay_scope_indexable(*editor, scope),
    ensures
        ({
            let indices = export_indices(scope, editor.selected_sequence, editor.sequences@.len());
            if indices.len() == 0 {
                r matches Err(m) && m@ == "No sequence selected for overlay export"@
            } else if !(exists|j: int|
                0 <= j < indices.len() && has_overlay_content(
                    editor.sequences_view()[#[trigger] indices[j] as int],
                    include_points,
                )) {
                r matches Err(m) && m@ == "Nothing to export for the selected overlay scope"@
            } else {
                r matches Ok(v) && v@ == indices
            }
        }),
{
    let indices = export_sequence_indices(editor, scope);
    if indices.len() == 0 {
        return Err("No sequence selected for overlay export");
    }
    let ghost items = editor.sequences@.map_values(|item: SequenceItem| item@);
    assert(items =~= editor.sequences_view());
    assert(indices_valid_until_content(items, indices@, include_points));
    let found = has_visible_overlay_content(
        editor.sequences.as_slice(),
        indices.as_slice(),
        include_points,
    );
    if !found {
        proof {
            assert forall|j: int|
                0 <= j < indices@.len() implies !has_overlay_content(
                editor.sequences_view()[#[trigger] indices@[j] as int],
                include_points,
            ) by {
                assert(indices@[j] < editor.sequences@.len());
            }
        }
        return Err("Nothing to export for the selected overlay scope");
    }
    Ok(indices)
}

/// The suggested file name of an image-with-overlay export: the sanitized
/// image name (or "exported_image") followed by "_overlay.png".
pub fn overlay_file_name(image_name: Option<&str>) -> (r: String)
    ensures
        r@ == match image_name {
            Some(name) => sanitized_file_name(name@),
            None => "exported_image"@,
        } + "_overlay.png"@,
{
    let mut base = match image_name {
        Some(name) => sanitize_file_name(name),
        None => owned_string("exported_image"),
    };
    push_str(&mut base, "_overlay.png");
    base
}

} // verus!
