//! The small Markdown subset of the About text: line kinds (blank, rule,
//! headings, bullets, paragraphs) and inline `**bold**` / `*italic*` runs.
use vstd::prelude::*;

use crate::text::{chars_of, push_char, string_from_range, trim_start_chars, trimmed_range};

verus! {

/// A run of text and whether it is bold and italic.
pub type SegmentView = (Seq<char>, bool, bool);

/// `current` as a segment, unless it is empty.
pub open spec fn flush(current: Seq<char>, bold: bool, italic: bool) -> Seq<SegmentView> {
    if current.len() > 0 {
        seq![(current, bold, italic)]
    } else {
        Seq::empty()
    }
}

/// The segments of `chars[i..]` when the text collected so far is `current`
/// and the emphasis state is (`bold`, `italic`): `**` toggles bold, a single
/// `*` toggles italic, and each marker ends the current run.
pub open spec fn segments_from(
    chars: Seq<char>,
    i: int,
    current: Seq<char>,
    bold: bool,
    italic: bool,
) -> Seq<SegmentView>
    decreases chars.len() - i,
{
    if i < 0 || i >= chars.len() {
        flush(current, bold, italic)
    } else if i + 1 < chars.len() && chars[i] == '*' && chars[i + 1] == '*' {
        flush(current, bold, italic) + segments_from(chars, i + 2, Seq::empty(), !bold, italic)
    } else if chars[i] == '*' {
        flush(current, bold, italic) + segments_from(chars, i + 1, Seq::empty(), bold, !italic)
    } else {
        segments_from(chars, i + 1, current.push(chars[i]), bold, italic)
    }
}

/// The segments of a whole line.
pub open spec fn inline_segments(text: Seq<char>) -> Seq<SegmentView> {
    segments_from(text, 0, Seq::empty(), false, false)
}

/// The views of parsed segments.
pub open spec fn segments_view(segments: Seq<(String, bool, bool)>) -> Seq<SegmentView> {
    segments.map_values(|s: (String, bool, bool)| (s.0@, s.1, s.2))
}

/// Split one line of text into `(text, bold, italic)` segments based on
/// `**bold**` and `*italic*` markers. Empty runs are left out.
pub fn parse_inline_segments(text: &str) -> (r: Vec<(String, bool, bool)>)
    ensures
        segments_view(r@) == inline_segments(text@),
{
    let chars = chars_of(text);
    let n = chars.len();
    let mut segments: Vec<(String, bool, bool)> = Vec::new();
    let mut current = String::new();
    let mut bold = false;
    let mut italic = false;
    let mut index: usize = 0;
    while index < n
        invariant
            index <= n,
            n == chars@.len(),
            chars@ == text@,
            segments_view(segments@) + segments_from(chars@, index as int, current@, bold, italic)
                == inline_segments(text@),
        decreases n - index,
    {
        let ghost before = segments_view(segments@);
        let ghost run = current@;
        let ghost i0 = index as int;
        let ghost b0 = bold;
        let ghost it0 = italic;
        if index + 1 < n && chars[index] == '*' && chars[index + 1] == '*' {
            if !current.as_str().is_empty() {
                segments.push((current, bold, italic));
                current = String::new();
            }
            assert(segments_view(segments@) =~= before + flush(run, bold, italic));
            assert(current@ =~= Seq::<char>::empty());
            bold = !bold;
            index = index + 2;
            assert(segments_view(segments@) + segments_from(chars@, index as int, current@, bold, italic)
                =~= before + segments_from(chars@, i0, run, b0, it0));
        } else if chars[index] == '*' {
            if !current.as_str().is_empty() {
                segments.push((current, bold, italic));
                current = String::new();
            }
            assert(segments_view(segments@) =~= before + flush(run, bold, italic));
            assert(current@ =~= Seq::<char>::empty());
            italic = !italic;
            index = index + 1;
            assert(segments_view(segments@) + segments_from(chars@, index as int, current@, bold, italic)
                =~= before + segments_from(chars@, i0, run, b0, it0));
        } else {
            push_char(&mut current, chars[index]);
            index = index + 1;
        }
    }
    let ghost before = segments_view(segments@);
    let ghost run = current@;
    if !current.as_str().is_empty() {
        segments.push((current, bold, italic));
    }
    assert(segments_view(segments@) =~= before + flush(run, bold, italic));
    segments
}

/// The kind of one Markdown line, with its text where it has one.
pub enum MarkdownLine {
    /// An empty line: paragraph spacing.
    Blank,
    /// `---` or `***`: a horizontal rule.
    Separator,
    /// `# `, `## ` or `### `: a heading of level 1 to 3.
    Heading { level: u8, text: String },
    /// `- ` or `* `: a bullet list item.
    Bullet { text: String },
    /// Anything else: plain text.
    Paragraph { text: String },
}

/// The mathematical content of a [`MarkdownLine`].
pub enum LineShape {
    Blank,
    Separator,
    Heading(u8, Seq<char>),
    Bullet(Seq<char>),
    Paragraph(Seq<char>),
}

impl View for MarkdownLine {
    type V = LineShape;

    open spec fn view(&self) -> LineShape {
        match self {
            MarkdownLine::Blank => LineShape::Blank,
            MarkdownLine::Separator => LineShape::Separator,
            MarkdownLine::Heading { level, text } => LineShape::Heading(*level, text@),
            MarkdownLine::Bullet { text } => LineShape::Bullet(text@),
            MarkdownLine::Paragraph { text } => LineShape::Paragraph(text@),
        }
    }
}

/// Whether `s` begins with `prefix`.
pub open spec fn starts_with(s: Seq<char>, prefix: Seq<char>) -> bool {
    prefix.len() <= s.len() && s.take(prefix.len() as int) == prefix
}

/// The kind of a line whose leading whitespace is already removed.
pub open spec fn line_shape(line: Seq<char>) -> LineShape {
    if line.len() == 0 {
        LineShape::Blank
    } else if line == seq!['-', '-', '-'] || line == seq!['*', '*', '*'] {
        LineShape::Separator
    } else if starts_with(line, seq!['#', '#', '#', ' ']) {
        LineShape::Heading(3, line.skip(4))
    } else if starts_with(line, seq!['#', '#', ' ']) {
        LineShape::Heading(2, line.skip(3))
    } else if starts_with(line, seq!['#', ' ']) {
        LineShape::Heading(1, line.skip(2))
    } else if starts_with(line, seq!['-', ' ']) || starts_with(line, seq!['*', ' ']) {
        LineShape::Bullet(line.skip(2))
    } else {
        LineShape::Paragraph(line)
    }
}

/// Classify one line of the About text after removing its leading whitespace.
pub fn classify_markdown_line(raw_line: &str) -> (r: MarkdownLine)
    ensures
        r@ == line_shape(trim_start_chars(raw_line@)),
{
    let chars = chars_of(raw_line);
    let (start, _end) = trimmed_range(&chars);
    let n = chars.len();
    let ghost line = chars@.skip(start as int);
    assert(line == trim_start_chars(raw_line@));
    let len = n - start;
    if len == 0 {
        return MarkdownLine::Blank;
    }
    let c0 = chars[start];
    let c1 = if len > 1 {
        chars[start + 1]
    } else {
        ' '
    };
    let c2 = if len > 2 {
        chars[start + 2]
    } else {
        ' '
    };
    let c3 = if len > 3 {
        chars[start + 3]
    } else {
        '?'
    };
    if len == 3 && ((c0 == '-' && c1 == '-' && c2 == '-') || (c0 == '*' && c1 == '*' && c2
        == '*')) {
        assert(line =~= seq![c0, c1, c2]);
        return MarkdownLine::Separator;
    }
    assert(line != seq!['-', '-', '-'] && line != seq!['*', '*', '*']) by {
        if line.len() == 3 {
            assert(line[0] == c0 && line[1] == c1 && line[2] == c2);
        }
    }
    if len >= 4 && c0 == '#' && c1 == '#' && c2 == '#' && c3 == ' ' {
        assert(line.take(4) =~= seq!['#', '#', '#', ' ']);
        let text = string_from_range(&chars, start + 4, n);
        assert(text@ =~= line.skip(4));
        return MarkdownLine::Heading { level: 3, text };
    }
    assert(!starts_with(line, seq!['#', '#', '#', ' '])) by {
        if starts_with(line, seq!['#', '#', '#', ' ']) {
            assert(line.take(4)[3] == line[3]);
        }
    }
    if len >= 3 && c0 == '#' && c1 == '#' && c2 == ' ' {
        assert(line.take(3) =~= seq!['#', '#', ' ']);
        let text = string_from_range(&chars, start + 3, n);
        assert(text@ =~= line.skip(3));
        return MarkdownLine::Heading { level: 2, text };
    }
    assert(!starts_with(line, seq!['#', '#', ' '])) by {
        if starts_with(line, seq!['#', '#', ' ']) {
            assert(line.take(3)[2] == line[2]);
        }
    }
    if len >= 2 && c0 == '#' && c1 == ' ' {
        assert(line.take(2) =~= seq!['#', ' ']);
        let text = string_from_range(&chars, start + 2, n);
        assert(text@ =~= line.skip(2));
        return MarkdownLine::Heading { level: 1, text };
    }
    assert(!starts_with(line, seq!['#', ' '])) by {
        if starts_with(line, seq!['#', ' ']) {
            assert(line.take(2)[1] == line[1]);
        }
    }
    if len >= 2 && (c0 == '-' || c0 == '*') && c1 == ' ' {
        assert(line.take(2) =~= seq![c0, ' ']);
        let text = string_from_range(&chars, start + 2, n);
        assert(text@ =~= line.skip(2));
        return MarkdownLine::Bullet { text };
    }
    assert(!starts_with(line, seq!['-', ' ']) && !starts_with(line, seq!['*', ' '])) by {
        if starts_with(line, seq!['-', ' ']) || starts_with(line, seq!['*', ' ']) {
            assert(line.take(2)[1] == line[1]);
            assert(line.take(2)[0] == line[0]);
        }
    }
    let text = string_from_range(&chars, start, n);
    assert(text@ =~= line);
    MarkdownLine::Paragraph { text }
}

} // verus!
