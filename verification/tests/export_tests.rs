use dottodot_studio::editor::{EditorState, SequenceItem, SequencePoint, DEFAULT_LINE_THICKNESS_BITS};
use dottodot_studio::export_dialog::{
    check_overlay_scope, chosen_exports, decode_overlay_base, ExportKind, export_sequence_indices, overlay_file_name,
    plan_csv_export, transparent_overlay_base, ExportDialogState, ExportScope,
};
use dottodot_studio::export_logic::{
    build_csv_for_all_sequences, build_csv_for_selected_sequence, csv_escape, decode_image,
    draw_filled_circle, has_visible_overlay_content, plan_overlay, sanitize_file_name,
    OverlayMark, RasterImage,
};
use dottodot_studio::model::ColorStyle;
use egui::Pos2;

fn sequence(name: &str, visible: bool, points: &[(f32, f32, i32)]) -> SequenceItem {
    SequenceItem {
        name: name.to_string(),
        visible,
        color: ColorStyle::from_rgb(1, 2, 3),
        line_thickness_bits: DEFAULT_LINE_THICKNESS_BITS,
        start_value: 1,
        points: points
            .iter()
            .map(|(x, y, v)| SequencePoint { position: Pos2::new(*x, *y), value: *v })
            .collect(),
    }
}

fn pixel(image: &RasterImage, x: u32, y: u32) -> [u8; 4] {
    let i = 4 * (y as usize * image.width as usize + x as usize);
    [image.data[i], image.data[i + 1], image.data[i + 2], image.data[i + 3]]
}

#[test]
fn sanitize_replaces_unsafe_characters_and_trims() {
    assert_eq!(sanitize_file_name("a/b\\c:d*e?f\"g<h>i|j"), "a_b_c_d_e_f_g_h_i_j");
    assert_eq!(sanitize_file_name("  My Sequence \t"), "My Sequence");
    assert_eq!(sanitize_file_name(""), "export");
    assert_eq!(sanitize_file_name(" \n\u{3000} "), "export");
    assert_eq!(sanitize_file_name("  ::  "), "__");
    assert_eq!(sanitize_file_name("Über Straße"), "Über Straße");
}

#[test]
fn sanitize_is_idempotent() {
    for name in ["", "  a  ", "x/y", "???", " \t ", "normal"] {
        let once = sanitize_file_name(name);
        assert_eq!(sanitize_file_name(&once), once);
        assert!(!once.is_empty());
    }
}

#[test]
fn csv_escape_quotes_only_when_needed() {
    assert_eq!(csv_escape("plain"), "plain");
    assert_eq!(csv_escape("a,b"), "\"a,b\"");
    assert_eq!(csv_escape("say \"hi\""), "\"say \"\"hi\"\"\"");
    assert_eq!(csv_escape("two\nlines"), "\"two\nlines\"");
    assert_eq!(csv_escape(""), "");
    assert_eq!(csv_escape("tab\there"), "tab\there");
}

#[test]
fn csv_for_one_sequence() {
    let item = sequence("Line, one", true, &[(1.5, 2.25, 1), (-3.0, 0.0004, 2)]);
    let csv = build_csv_for_selected_sequence(4, &item);
    assert_eq!(
        csv,
        "sequence_index,sequence_name,start_value,point_index,point_value,x,y\n\
         4,\"Line, one\",1,0,1,1.500,2.250\n\
         4,\"Line, one\",1,1,2,-3.000,0.000\n"
    );
}

#[test]
fn csv_for_an_empty_sequence_is_only_the_header() {
    let item = sequence("Empty", true, &[]);
    assert_eq!(
        build_csv_for_selected_sequence(0, &item),
        "sequence_index,sequence_name,start_value,point_index,point_value,x,y\n"
    );
}

#[test]
fn csv_for_all_sequences_in_order() {
    let mut second = sequence("B", false, &[(10.0, 20.0, -7)]);
    second.start_value = -7;
    let items = vec![sequence("A", true, &[(0.0, 1.0, 1)]), sequence("Empty", true, &[]), second];
    let csv = build_csv_for_all_sequences(&items);
    assert_eq!(
        csv,
        "sequence_index,sequence_name,start_value,point_index,point_value,x,y\n\
         0,A,1,0,1,0.000,1.000\n\
         2,B,-7,0,-7,10.000,20.000\n"
    );
}

#[test]
fn all_sequences_csv_is_made_of_sequence_exports() {
    let header = "sequence_index,sequence_name,start_value,point_index,point_value,x,y\n";
    let a = sequence("A, with comma", true, &[(0.5, 1.25, 1), (2.0, 3.0, 2)]);
    let b = sequence("B", true, &[(4.0, 5.0, 9)]);
    assert_eq!(
        build_csv_for_all_sequences(std::slice::from_ref(&a)),
        build_csv_for_selected_sequence(0, &a)
    );
    let both = build_csv_for_all_sequences(&[a.clone(), b.clone()]);
    let first = build_csv_for_all_sequences(std::slice::from_ref(&a));
    let second = build_csv_for_selected_sequence(1, &b);
    assert_eq!(both, format!("{}{}", first, &second[header.len()..]));
}

#[test]
fn overlay_content_needs_a_visible_line_or_point() {
    let items = vec![
        sequence("hidden", false, &[(0.0, 0.0, 1), (1.0, 1.0, 2)]),
        sequence("single", true, &[(0.0, 0.0, 1)]),
        sequence("line", true, &[(0.0, 0.0, 1), (1.0, 1.0, 2)]),
    ];
    assert!(!has_visible_overlay_content(&items, &[0], true));
    assert!(!has_visible_overlay_content(&items, &[1], false));
    assert!(has_visible_overlay_content(&items, &[1], true));
    assert!(has_visible_overlay_content(&items, &[0, 2], false));
    assert!(!has_visible_overlay_content(&items, &[], true));
    // The search stops at the first match; later indices are never looked at.
    assert!(has_visible_overlay_content(&items, &[2, 99], false));
}

#[test]
fn transparent_image_is_all_zero() {
    let image = RasterImage::transparent(3, 2);
    assert_eq!(image.width, 3);
    assert_eq!(image.height, 2);
    assert_eq!(image.data, vec![0u8; 24]);
}

#[test]
fn filled_circle_paints_the_disc_inside_the_image() {
    let mut image = RasterImage::transparent(7, 7);
    let red = ColorStyle { r: 255, g: 0, b: 0, a: 255 };
    draw_filled_circle(&mut image, 3, 3, 2, red);
    for y in 0..7u32 {
        for x in 0..7u32 {
            let dx = x as i32 - 3;
            let dy = y as i32 - 3;
            let expected = if dx * dx + dy * dy <= 4 { [255, 0, 0, 255] } else { [0, 0, 0, 0] };
            assert_eq!(pixel(&image, x, y), expected, "pixel {x},{y}");
        }
    }
}

#[test]
fn filled_circle_is_clipped_at_the_border() {
    let mut image = RasterImage::transparent(4, 3);
    let blue = ColorStyle { r: 0, g: 0, b: 200, a: 100 };
    draw_filled_circle(&mut image, 0, 0, 1, blue);
    assert_eq!(pixel(&image, 0, 0), [0, 0, 200, 100]);
    assert_eq!(pixel(&image, 1, 0), [0, 0, 200, 100]);
    assert_eq!(pixel(&image, 0, 1), [0, 0, 200, 100]);
    assert_eq!(pixel(&image, 1, 1), [0, 0, 0, 0]);
    let before = image.data.clone();
    draw_filled_circle(&mut image, 2, 1, -1, blue);
    assert_eq!(image.data, before);
    draw_filled_circle(&mut image, 3, 2, 0, blue);
    assert_eq!(pixel(&image, 3, 2), [0, 0, 200, 100]);
}

#[test]
fn export_dialog_defaults() {
    let state = ExportDialogState::default();
    assert!(!state.open);
    assert!(!state.export_points_as_csv);
    assert!(!state.export_image_without_overlay);
    assert!(state.export_image_with_overlay);
    assert!(!state.export_overlay_only);
    assert!(state.include_points_in_overlay);
    assert_eq!(state.scope, ExportScope::SelectedSequence);
}

fn editor_with(sequences: Vec<SequenceItem>, selected: Option<usize>) -> EditorState {
    let mut editor = EditorState::default();
    editor.sequences = sequences;
    editor.selected_sequence = selected;
    editor
}

#[test]
fn export_indices_follow_the_scope() {
    let editor = editor_with(vec![sequence("A", true, &[]), sequence("B", true, &[])], Some(1));
    assert_eq!(export_sequence_indices(&editor, ExportScope::SelectedSequence), vec![1]);
    assert_eq!(export_sequence_indices(&editor, ExportScope::AllSequences), vec![0, 1]);
    let none = editor_with(vec![sequence("A", true, &[])], None);
    assert!(export_sequence_indices(&none, ExportScope::SelectedSequence).is_empty());
}

#[test]
fn csv_plan_for_the_selected_sequence() {
    let editor = editor_with(vec![sequence(" My/Dots ", true, &[(1.0, 2.0, 1)])], Some(0));
    let (file_name, csv) = plan_csv_export(&editor, ExportScope::SelectedSequence).unwrap();
    assert_eq!(file_name, "My_Dots.csv");
    assert_eq!(csv, build_csv_for_selected_sequence(0, &editor.sequences[0]));

    let empty = editor_with(vec![sequence("Empty", true, &[])], Some(0));
    assert_eq!(
        plan_csv_export(&empty, ExportScope::SelectedSequence),
        Err("Sequence Empty has no points to export".to_string())
    );
    let none = editor_with(vec![sequence("A", true, &[])], None);
    assert_eq!(
        plan_csv_export(&none, ExportScope::SelectedSequence),
        Err("No sequence selected for CSV export".to_string())
    );
    let stale = editor_with(vec![sequence("A", true, &[])], Some(3));
    assert_eq!(
        plan_csv_export(&stale, ExportScope::SelectedSequence),
        Err("Selected sequence is invalid".to_string())
    );
}

#[test]
fn csv_plan_for_all_sequences() {
    let editor = editor_with(vec![sequence("A", true, &[]), sequence("B", true, &[(0.0, 0.0, 5)])], None);
    let (file_name, csv) = plan_csv_export(&editor, ExportScope::AllSequences).unwrap();
    assert_eq!(file_name, "all_sequences.csv");
    assert_eq!(csv, build_csv_for_all_sequences(&editor.sequences));
    let no_points = editor_with(vec![sequence("A", true, &[])], None);
    assert_eq!(
        plan_csv_export(&no_points, ExportScope::AllSequences),
        Err("There are no points to export".to_string())
    );
    let nothing = editor_with(vec![], None);
    assert_eq!(
        plan_csv_export(&nothing, ExportScope::AllSequences),
        Err("There are no sequences to export".to_string())
    );
}

#[test]
fn overlay_scope_checks() {
    let editor = editor_with(
        vec![sequence("hidden", false, &[(0.0, 0.0, 1), (1.0, 1.0, 2)]), sequence("one", true, &[(0.0, 0.0, 1)])],
        Some(1),
    );
    assert_eq!(check_overlay_scope(&editor, ExportScope::SelectedSequence, true), Ok(vec![1]));
    assert_eq!(
        check_overlay_scope(&editor, ExportScope::SelectedSequence, false),
        Err("Nothing to export for the selected overlay scope")
    );
    assert_eq!(check_overlay_scope(&editor, ExportScope::AllSequences, true), Ok(vec![0, 1]));
    let none = editor_with(vec![sequence("A", true, &[])], None);
    assert_eq!(
        check_overlay_scope(&none, ExportScope::SelectedSequence, true),
        Err("No sequence selected for overlay export")
    );
}

#[test]
fn overlay_file_names() {
    assert_eq!(overlay_file_name(Some("photo.png")), "photo.png_overlay.png");
    assert_eq!(overlay_file_name(Some(" a:b ")), "a_b_overlay.png");
    assert_eq!(overlay_file_name(None), "exported_image_overlay.png");
}

#[test]
fn transparent_overlay_base_needs_a_size() {
    assert_eq!(transparent_overlay_base(None).err(), Some("No image size available for overlay export"));
    let image = transparent_overlay_base(Some((2, 5))).unwrap();
    assert_eq!((image.width, image.height, image.data.len()), (2, 5, 40));
}

#[test]
fn decoding_the_embedded_image() {
    let mut source = image::RgbaImage::new(2, 1);
    source.put_pixel(0, 0, image::Rgba([10, 20, 30, 40]));
    source.put_pixel(1, 0, image::Rgba([50, 60, 70, 255]));
    let mut png = Vec::new();
    source
        .write_to(&mut std::io::Cursor::new(&mut png), image::ImageFormat::Png)
        .unwrap();
    let decoded = decode_overlay_base(Some(&png)).unwrap();
    assert_eq!((decoded.width, decoded.height), (2, 1));
    assert_eq!(decoded.data, vec![10, 20, 30, 40, 50, 60, 70, 255]);

    assert_eq!(
        decode_overlay_base(None).err(),
        Some("No embedded image available for overlay export".to_string())
    );
    let failure = decode_overlay_base(Some(&[1, 2, 3])).err().unwrap();
    assert!(failure.starts_with("Failed to decode image for overlay export: "));
    assert!(failure.len() > "Failed to decode image for overlay export: ".len());
}

#[test]
fn decoding_an_imported_image() {
    let mut source = image::RgbaImage::new(1, 2);
    source.put_pixel(0, 0, image::Rgba([1, 2, 3, 4]));
    source.put_pixel(0, 1, image::Rgba([200, 100, 50, 255]));
    let mut png = Vec::new();
    source
        .write_to(&mut std::io::Cursor::new(&mut png), image::ImageFormat::Png)
        .unwrap();
    let decoded = decode_image(&png).unwrap();
    assert_eq!((decoded.width, decoded.height), (1, 2));
    assert_eq!(decoded.data, vec![1, 2, 3, 4, 200, 100, 50, 255]);
    let failure = decode_image(b"not an image").err().unwrap();
    assert!(!failure.is_empty());
}

#[test]
fn csv_coordinates_are_separated_by_a_comma() {
    let item = sequence("S", true, &[(-1.5, 2.25, 3)]);
    let csv = build_csv_for_selected_sequence(4, &item);
    assert!(csv.ends_with("4,S,1,0,3,-1.500,2.250\n"));
}

#[test]
fn overlay_plan_lists_segments_then_markers() {
    let items = vec![
        sequence("hidden", false, &[(0.0, 0.0, 1), (1.0, 1.0, 2)]),
        sequence("three", true, &[(0.0, 0.0, 1), (1.0, 1.0, 2), (2.0, 2.0, 3)]),
        sequence("single", true, &[(5.0, 5.0, 1)]),
    ];
    assert_eq!(
        plan_overlay(&items, &[1, 0, 2], true),
        vec![
            OverlayMark::Segment { sequence: 1, from: 0 },
            OverlayMark::Segment { sequence: 1, from: 1 },
            OverlayMark::Marker { sequence: 1, point: 0 },
            OverlayMark::Marker { sequence: 1, point: 1 },
            OverlayMark::Marker { sequence: 1, point: 2 },
            OverlayMark::Marker { sequence: 2, point: 0 },
        ]
    );
    assert_eq!(
        plan_overlay(&items, &[2, 1], false),
        vec![
            OverlayMark::Segment { sequence: 1, from: 0 },
            OverlayMark::Segment { sequence: 1, from: 1 },
        ]
    );
    assert!(plan_overlay(&items, &[0], true).is_empty());
    assert!(plan_overlay(&items, &[], true).is_empty());
}

/// Line breaks and commas outside quoted fields, as a CSV reader counts them.
fn records_and_separators(csv: &str) -> (usize, usize) {
    let mut quoted = false;
    let (mut records, mut separators) = (0, 0);
    for c in csv.chars() {
        match c {
            '"' => quoted = !quoted,
            '\n' if !quoted => records += 1,
            ',' if !quoted => separators += 1,
            _ => {}
        }
    }
    (records, separators)
}

#[test]
fn every_point_is_one_csv_record_of_seven_fields() {
    let tricky = sequence("line\nbreak, \"quoted\"", true, &[(1.0, 2.0, 1), (-3.5, 4.0, 2)]);
    let plain = sequence("P", true, &[(0.0, 0.0, 7)]);
    let empty = sequence("E", true, &[]);
    let one = build_csv_for_selected_sequence(0, &tricky);
    assert_eq!(records_and_separators(&one), (3, 18));
    let all = build_csv_for_all_sequences(&[tricky, empty, plain]);
    assert_eq!(records_and_separators(&all), (4, 24));
    assert!(all.contains("\"line\nbreak, \"\"quoted\"\"\""));
}

#[test]
fn chosen_exports_run_in_a_fixed_order() {
    let mut dialog = ExportDialogState::default();
    assert_eq!(chosen_exports(&dialog), Ok(vec![ExportKind::ImageWithOverlay]));
    dialog.export_points_as_csv = true;
    dialog.export_overlay_only = true;
    dialog.export_image_without_overlay = true;
    assert_eq!(
        chosen_exports(&dialog),
        Ok(vec![
            ExportKind::PointsCsv,
            ExportKind::ImageWithoutOverlay,
            ExportKind::ImageWithOverlay,
            ExportKind::OverlayOnly,
        ])
    );
    let none = ExportDialogState {
        export_points_as_csv: false,
        export_image_without_overlay: false,
        export_image_with_overlay: false,
        export_overlay_only: false,
        ..ExportDialogState::default()
    };
    assert_eq!(chosen_exports(&none), Err("No export option selected"));
}
