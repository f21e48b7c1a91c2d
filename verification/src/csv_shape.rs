//! The record structure of CSV text: line breaks and commas that stand
//! outside quoted fields, which is how a CSV reader splits records and fields.
use vstd::prelude::*;

use crate::editor::SequenceItemView;
use crate::export_logic::{csv_field, csv_header, doubled_quotes, needs_csv_quotes};
use crate::text::{decimal_digits, decimal_text};

verus! {

/// Whether a quoted field is open after reading `s`, having started with `start`.
pub open spec fn in_quotes_after(s: Seq<char>, start: bool) -> bool
    decreases s.len(),
{
    if s.len() == 0 {
        start
    } else if s.last() == '"' {
        !in_quotes_after(s.drop_last(), start)
    } else {
        in_quotes_after(s.drop_last(), start)
    }
}

/// How many times `c` occurs in `s` outside quoted fields, having started
/// with `start`.
pub open spec fn unquoted_count(s: Seq<char>, c: char, start: bool) -> nat
    decreases s.len(),
{
    if s.len() == 0 {
        0
    } else {
        unquoted_count(s.drop_last(), c, start) + if s.last() == c && !in_quotes_after(
            s.drop_last(),
            start,
        ) {
            1nat
        } else {
            0nat
        }
    }
}

/// The number of records of CSV text: its line breaks outside quoted fields.
pub open spec fn csv_records(s: Seq<char>) -> nat {
    unquoted_count(s, '\n', false)
}

/// The number of field separators of CSV text: its commas outside quoted fields.
pub open spec fn csv_separators(s: Seq<char>) -> nat {
    unquoted_count(s, ',', false)
}

/// Text that holds no quote, comma or line break.
pub open spec fn plain_text(s: Seq<char>) -> bool {
    !s.contains('"') && !s.contains(',') && !s.contains('\n')
}

/// Reading one more character.
pub proof fn lemma_push(s: Seq<char>, ch: char, c: char)
    ensures
        in_quotes_after(s.push(ch), false) == if ch == '"' {
            !in_quotes_after(s, false)
        } else {
            in_quotes_after(s, false)
        },
        unquoted_count(s.push(ch), c, false) == unquoted_count(s, c, false) + if ch == c
            && !in_quotes_after(s, false) {
            1nat
        } else {
            0nat
        },
{
    assert(s.push(ch).drop_last() =~= s);
}

/// Appending plain text changes neither the quoting state nor the counts of
/// commas and line breaks.
pub proof fn lemma_append_plain(s: Seq<char>, p: Seq<char>)
    requires
        plain_text(p),
    ensures
        in_quotes_after(s + p, false) == in_quotes_after(s, false),
        unquoted_count(s + p, ',', false) == unquoted_count(s, ',', false),
        unquoted_count(s + p, '\n', false) == unquoted_count(s, '\n', false),
    decreases p.len(),
{
    if p.len() == 0 {
        assert(s + p =~= s);
    } else {
        let q = p.drop_last();
        assert(plain_text(q)) by {
            if q.contains('"') || q.contains(',') || q.contains('\n') {
                let k = choose|k: int|
                    0 <= k < q.len() && (q[k] == '"' || q[k] == ',' || q[k] == '\n');
                assert(p[k] == q[k]);
            }
        }
        lemma_append_plain(s, q);
        assert(s + p =~= (s + q).push(p.last()));
        assert(p.contains(p.last())) by {
            assert(p[p.len() - 1] == p.last());
        }
        lemma_push(s + q, p.last(), ',');
        lemma_push(s + q, p.last(), '\n');
    }
}

/// Appending one character to unquoted text.
pub proof fn lemma_append_char(s: Seq<char>, ch: char)
    requires
        !in_quotes_after(s, false),
        ch != '"',
    ensures
        !in_quotes_after(s.push(ch), false),
        unquoted_count(s.push(ch), ',', false) == unquoted_count(s, ',', false) + if ch == ',' {
            1nat
        } else {
            0nat
        },
        unquoted_count(s.push(ch), '\n', false) == unquoted_count(s, '\n', false) + if ch
            == '\n' {
            1nat
        } else {
            0nat
        },
{
    lemma_push(s, ch, ',');
    lemma_push(s, ch, '\n');
}

/// Inside an open quote, text with doubled quotes leaves the quote open and
/// adds no comma or line break outside quotes.
proof fn lemma_doubled_inside_quotes(t: Seq<char>, v: Seq<char>)
    requires
        in_quotes_after(t, false),
    ensures
        in_quotes_after(t + doubled_quotes(v), false),
        unquoted_count(t + doubled_quotes(v), ',', false) == unquoted_count(t, ',', false),
        unquoted_count(t + doubled_quotes(v), '\n', false) == unquoted_count(t, '\n', false),
    decreases v.len(),
{
    if v.len() == 0 {
        assert(t + doubled_quotes(v) =~= t);
    } else {
        let front = t + doubled_quotes(v.drop_last());
        lemma_doubled_inside_quotes(t, v.drop_last());
        if v.last() == '"' {
            assert(t + doubled_quotes(v) =~= front.push('"').push('"'));
            lemma_push(front, '"', ',');
            lemma_push(front, '"', '\n');
            lemma_push(front.push('"'), '"', ',');
            lemma_push(front.push('"'), '"', '\n');
        } else {
            assert(t + doubled_quotes(v) =~= front.push(v.last()));
            lemma_push(front, v.last(), ',');
            lemma_push(front, v.last(), '\n');
        }
    }
}

/// Appending one CSV field to unquoted text leaves it unquoted and adds no
/// comma or line break outside quotes.
pub proof fn lemma_append_field(s: Seq<char>, value: Seq<char>)
    requires
        !in_quotes_after(s, false),
    ensures
        !in_quotes_after(s + csv_field(value), false),
        unquoted_count(s + csv_field(value), ',', false) == unquoted_count(s, ',', false),
        unquoted_count(s + csv_field(value), '\n', false) == unquoted_count(s, '\n', false),
{
    let escaped = doubled_quotes(value);
    if needs_csv_quotes(escaped) {
        let opened = s.push('"');
        lemma_push(s, '"', ',');
        lemma_push(s, '"', '\n');
        lemma_doubled_inside_quotes(opened, value);
        let inner = opened + escaped;
        lemma_push(inner, '"', ',');
        lemma_push(inner, '"', '\n');
        assert(s + csv_field(value) =~= inner.push('"'));
    } else {
        lemma_append_plain(s, escaped);
    }
}

proof fn lemma_digits_plain(n: nat)
    ensures
        plain_text(decimal_digits(n)),
        forall|k: int| 0 <= k < decimal_digits(n).len() ==> #[trigger] decimal_digits(n)[k]
            != '-',
    decreases n,
{
    if n >= 10 {
        lemma_digits_plain(n / 10);
    }
    let d = decimal_digits(n);
    assert forall|k: int| 0 <= k < d.len() implies d[k] != '"' && d[k] != ',' && d[k] != '\n'
        && d[k] != '-' by {
        if n >= 10 && k < d.len() - 1 {
            assert(d[k] == decimal_digits(n / 10)[k]);
            assert(decimal_digits(n / 10).contains(d[k]));
        }
    }
}

/// A decimal number holds no quote, comma or line break.
pub proof fn lemma_decimal_plain(n: int)
    ensures
        plain_text(decimal_text(n)),
{
    if n < 0 {
        lemma_digits_plain((-n) as nat);
        let t = decimal_text(n);
        let d = decimal_digits((-n) as nat);
        assert forall|k: int| 0 <= k < t.len() implies t[k] != '"' && t[k] != ',' && t[k]
            != '\n' by {
            if k > 0 {
                assert(t[k] == d[k - 1]);
                assert(d.contains(d[k - 1]));
            }
        }
    } else {
        lemma_digits_plain(n as nat);
    }
}

/// Appending a comma to unquoted text adds one field separator.
pub proof fn lemma_append_comma(s: Seq<char>)
    requires
        !in_quotes_after(s, false),
    ensures
        !in_quotes_after(s + ","@, false),
        csv_separators(s + ","@) == csv_separators(s) + 1,
        csv_records(s + ","@) == csv_records(s),
{
    reveal_strlit(",");
    assert(s + ","@ =~= s.push(','));
    lemma_append_char(s, ',');
}

/// Appending a line break to unquoted text ends one record.
pub proof fn lemma_append_newline(s: Seq<char>)
    requires
        !in_quotes_after(s, false),
    ensures
        !in_quotes_after(s + "\n"@, false),
        csv_separators(s + "\n"@) == csv_separators(s),
        csv_records(s + "\n"@) == csv_records(s) + 1,
{
    reveal_strlit("\n");
    assert(s + "\n"@ =~= s.push('\n'));
    lemma_append_char(s, '\n');
}

/// Appending a signed decimal number changes neither the quoting state nor
/// the counts.
pub proof fn lemma_append_decimal(s: Seq<char>, n: int)
    ensures
        in_quotes_after(s + decimal_text(n), false) == in_quotes_after(s, false),
        csv_separators(s + decimal_text(n)) == csv_separators(s),
        csv_records(s + decimal_text(n)) == csv_records(s),
{
    lemma_decimal_plain(n);
    lemma_append_plain(s, decimal_text(n));
}

/// The number of points of the first `m` sequences.
pub open spec fn total_points(items: Seq<SequenceItemView>, m: int) -> int
    decreases m,
{
    if m <= 0 {
        0
    } else {
        total_points(items, m - 1) + items[m - 1].points.len()
    }
}

/// A word of the header holds no quote, comma or line break.
proof fn lemma_word_plain(w: Seq<char>)
    requires
        forall|k: int| 0 <= k < w.len() ==> (('a' <= #[trigger] w[k] && w[k] <= 'z') || w[k] == '_'),
    ensures
        plain_text(w),
{
}

/// The header line is one record of seven fields.
pub proof fn lemma_header_shape()
    ensures
        !in_quotes_after(csv_header(), false),
        csv_records(csv_header()) == 1,
        csv_separators(csv_header()) == 6,
{
    reveal_strlit("sequence_index,sequence_name,start_value,point_index,point_value,x,y\n");
    reveal_strlit("sequence_index");
    reveal_strlit("sequence_name");
    reveal_strlit("start_value");
    reveal_strlit("point_index");
    reveal_strlit("point_value");
    let w1 = "sequence_index"@;
    let w2 = "sequence_name"@;
    let w3 = "start_value"@;
    let w4 = "point_index"@;
    let w5 = "point_value"@;
    let w6 = seq!['x'];
    let w7 = seq!['y'];
    lemma_word_plain(w1);
    lemma_word_plain(w2);
    lemma_word_plain(w3);
    lemma_word_plain(w4);
    lemma_word_plain(w5);
    lemma_word_plain(w6);
    lemma_word_plain(w7);
    let e = Seq::<char>::empty();
    assert(!in_quotes_after(e, false));
    let s1 = e + w1;
    lemma_append_plain(e, w1);
    lemma_append_char(s1, ',');
    let s2 = s1.push(',') + w2;
    lemma_append_plain(s1.push(','), w2);
    lemma_append_char(s2, ',');
    let s3 = s2.push(',') + w3;
    lemma_append_plain(s2.push(','), w3);
    lemma_append_char(s3, ',');
    let s4 = s3.push(',') + w4;
    lemma_append_plain(s3.push(','), w4);
    lemma_append_char(s4, ',');
    let s5 = s4.push(',') + w5;
    lemma_append_plain(s4.push(','), w5);
    lemma_append_char(s5, ',');
    let s6 = s5.push(',') + w6;
    lemma_append_plain(s5.push(','), w6);
    lemma_append_char(s6, ',');
    let s7 = s6.push(',') + w7;
    lemma_append_plain(s6.push(','), w7);
    lemma_append_char(s7, '\n');
    assert(csv_header() =~= s7.push('\n'));
}

} // verus!
