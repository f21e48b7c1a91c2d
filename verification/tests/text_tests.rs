use dottodot_studio::commands::{command_refusal, ProjectCommand};
use dottodot_studio::markdown::{classify_markdown_line, parse_inline_segments, MarkdownLine};
use dottodot_studio::storage::{has_column, project_table_migration, sequence_table_migration};
use dottodot_studio::text::{chars_of, push_signed, push_unsigned, trimmed_range};

fn segments(text: &str) -> Vec<(String, bool, bool)> {
    parse_inline_segments(text)
}

fn seg(text: &str, bold: bool, italic: bool) -> (String, bool, bool) {
    (text.to_string(), bold, italic)
}

#[test]
fn inline_bold_and_italic() {
    assert_eq!(
        segments("**DotToDotStudio** is a *small* tool"),
        vec![
            seg("DotToDotStudio", true, false),
            seg(" is a ", false, false),
            seg("small", false, true),
            seg(" tool", false, false),
        ]
    );
}

#[test]
fn inline_plain_text_is_one_segment() {
    assert_eq!(segments("Version 0.1.0"), vec![seg("Version 0.1.0", false, false)]);
    assert!(segments("").is_empty());
    assert!(segments("****").is_empty());
}

#[test]
fn inline_nested_and_unclosed_markers() {
    assert_eq!(
        segments("***both*** then *open"),
        vec![seg("both", true, true), seg(" then ", false, false), seg("open", false, true)]
    );
    assert_eq!(segments("a*"), vec![seg("a", false, false)]);
}

#[test]
fn inline_segments_keep_all_text_but_the_markers() {
    for text in ["**a** *b* c", "*x**y*", "no markers", "***"] {
        let joined: String = segments(text).iter().map(|s| s.0.clone()).collect();
        assert_eq!(joined, text.replace('*', ""));
        assert!(segments(text).iter().all(|s| !s.0.is_empty() && !s.0.contains('*')));
    }
}

fn text_of(line: MarkdownLine) -> (u8, String) {
    match line {
        MarkdownLine::Blank => (0, String::new()),
        MarkdownLine::Separator => (1, String::new()),
        MarkdownLine::Heading { level, text } => (10 + level, text),
        MarkdownLine::Bullet { text } => (20, text),
        MarkdownLine::Paragraph { text } => (30, text),
    }
}

#[test]
fn markdown_line_kinds() {
    assert_eq!(text_of(classify_markdown_line("")), (0, String::new()));
    assert_eq!(text_of(classify_markdown_line("   \t")), (0, String::new()));
    assert_eq!(text_of(classify_markdown_line("---")), (1, String::new()));
    assert_eq!(text_of(classify_markdown_line("  ***")), (1, String::new()));
    assert_eq!(text_of(classify_markdown_line("# Title")), (11, "Title".to_string()));
    assert_eq!(text_of(classify_markdown_line("## Features")), (12, "Features".to_string()));
    assert_eq!(text_of(classify_markdown_line("### Small")), (13, "Small".to_string()));
    assert_eq!(text_of(classify_markdown_line("- item")), (20, "item".to_string()));
    assert_eq!(text_of(classify_markdown_line("* item")), (20, "item".to_string()));
    assert_eq!(text_of(classify_markdown_line("#NoSpace")), (30, "#NoSpace".to_string()));
    assert_eq!(text_of(classify_markdown_line("----")), (30, "----".to_string()));
    assert_eq!(text_of(classify_markdown_line("**bold** text")), (30, "**bold** text".to_string()));
    assert_eq!(text_of(classify_markdown_line("  indented text ")), (30, "indented text ".to_string()));
}

#[test]
fn schema_migrations() {
    let with = vec!["id".to_string(), "image_data".to_string()];
    let without = vec!["id".to_string(), "name".to_string()];
    assert!(has_column(&with, "image_data"));
    assert!(!has_column(&without, "image_data"));
    assert_eq!(project_table_migration(&with), None);
    assert_eq!(
        project_table_migration(&without),
        Some("ALTER TABLE project ADD COLUMN image_data BLOB")
    );
    assert_eq!(sequence_table_migration(&vec!["line_thickness".to_string()]), None);
    assert_eq!(
        sequence_table_migration(&Vec::new()),
        Some("ALTER TABLE sequence ADD COLUMN line_thickness REAL NOT NULL DEFAULT 3.0")
    );
}

#[test]
fn decimal_rendering() {
    let mut s = String::from("n=");
    push_unsigned(&mut s, 0);
    s.push(' ');
    push_unsigned(&mut s, 1234567890);
    s.push(' ');
    push_signed(&mut s, -45);
    s.push(' ');
    push_signed(&mut s, i64::MIN);
    s.push(' ');
    push_unsigned(&mut s, u64::MAX);
    assert_eq!(s, format!("n=0 1234567890 -45 {} {}", i64::MIN, u64::MAX));
}

#[test]
fn trimming_uses_unicode_whitespace() {
    let chars = chars_of("\u{a0} x y\u{2003}\n");
    let (start, end) = trimmed_range(&chars);
    assert_eq!(chars[start..end].iter().collect::<String>(), "x y");
    let blank = chars_of(" \t ");
    let (start, end) = trimmed_range(&blank);
    assert_eq!(start, end);
}

#[test]
fn project_commands_depend_on_the_embedded_image() {
    assert_eq!(command_refusal(ProjectCommand::ImportImage, false), None);
    assert_eq!(
        command_refusal(ProjectCommand::ImportImage, true),
        Some("Import Image is only available for a new empty project")
    );
    assert_eq!(command_refusal(ProjectCommand::SaveProject, true), None);
    assert_eq!(
        command_refusal(ProjectCommand::SaveProject, false),
        Some("Cannot save project without an embedded image")
    );
}
