//! The status-bar texts that report the outcome of editor commands.
use vstd::prelude::*;

use crate::editor::EditorState;
use crate::text::{chars_of, decimal_text, owned_string, push_signed, push_str, push_unsigned};

verus! {

/// Whether two string slices hold the same characters.
pub fn same_text(a: &str, b: &str) -> (r: bool)
    ensures
        r == (a@ == b@),
{
    let x = chars_of(a);
    let y = chars_of(b);
    if x.len() != y.len() {
        assert(x@.len() != y@.len());
        return false;
    }
    let n = x.len();
    let mut i: usize = 0;
    while i < n
        invariant
            i <= n,
            n == x@.len(),
            n == y@.len(),
            x@ == a@,
            y@ == b@,
            forall|k: int| 0 <= k < i ==> x@[k] == y@[k],
        decreases n - i,
    {
        if x[i] != y[i] {
            assert(x@[i as int] != y@[i as int]);
            return false;
        }
        i = i + 1;
    }
    assert(x@ =~= y@);
    true
}

/// The status text for a failed navigation command with error `error`;
/// `fallback` is used for an error the editor does not report.
pub open spec fn navigation_error_status(
    editor: EditorState,
    error: Seq<char>,
    fallback: Seq<char>,
) -> Seq<char> {
    if error == "No sequence selected"@ {
        "No sequence selected"@
    } else if error == "Selected sequence is invalid"@ {
        "Selected sequence is invalid"@
    } else if error == "Sequence has no points"@ {
        match editor.selected_sequence {
            Some(i) => if i < editor.sequences@.len() {
                "Sequence "@ + editor.sequences_view()[i as int].name + " has no points"@
            } else {
                "Selected sequence is invalid"@
            },
            None => "No sequence selected"@,
        }
    } else {
        fallback
    }
}

/// The status text for a navigation error.
fn navigation_error_text(editor: &EditorState, error: &str, fallback: &str) -> (r: String)
    ensures
        r@ == navigation_error_status(*editor, error@, fallback@),
{
    if same_text(error, "No sequence selected") {
        owned_string("No sequence selected")
    } else if same_text(error, "Selected sequence is invalid") {
        owned_string("Selected sequence is invalid")
    } else if same_text(error, "Sequence has no points") {
        match editor.selected_sequence {
            Some(i) => if i < editor.sequences.len() {
                let mut text = owned_string("Sequence ");
                push_str(&mut text, editor.sequences[i].name.as_str());
                push_str(&mut text, " has no points");
                text
            } else {
                owned_string("Selected sequence is invalid")
            },
            None => owned_string("No sequence selected"),
        }
    } else {
        owned_string(fallback)
    }
}

/// The status text after jumping to the first (`to_end == false`) or last
/// point of the selected sequence, given the jump's result and the editor.
pub fn jump_status(editor: &EditorState, to_end: bool, result: &Result<String, &str>) -> (r: String)
    ensures
        r@ == match result {
            Ok(name) => if to_end {
                "Jumped to last point in "@ + name@
            } else {
                "Jumped to first point in "@ + name@
            },
            Err(e) => navigation_error_status(
                *editor,
                e@,
                if to_end {
                    "Could not jump to last point"@
                } else {
                    "Could not jump to first point"@
                },
            ),
        },
{
    match result {
        Ok(name) => {
            let mut text = if to_end {
                owned_string("Jumped to last point in ")
            } else {
                owned_string("Jumped to first point in ")
            };
            push_str(&mut text, name.as_str());
            text
        },
        Err(e) => {
            let fallback = if to_end {
                "Could not jump to last point"
            } else {
                "Could not jump to first point"
            };
            navigation_error_text(editor, e, fallback)
        },
    }
}

/// "Selected point {value} in {name}".
pub open spec fn selected_point_status(value: i32, name: Seq<char>) -> Seq<char> {
    "Selected point "@ + decimal_text(value as int) + " in "@ + name
}

/// The status text after selecting the previous (`previous == true`) or next
/// point, given the command's result and the editor.
pub fn point_selection_status(
    editor: &EditorState,
    previous: bool,
    result: &Result<(i32, String), &str>,
) -> (r: String)
    ensures
        r@ == match result {
            Ok((value, name)) => selected_point_status(*value, name@),
            Err(e) => navigation_error_status(
                *editor,
                e@,
                if previous {
                    "Could not select previous point"@
                } else {
                    "Could not select next point"@
                },
            ),
        },
{
    match result {
        Ok((value, name)) => selected_point_text(*value, name.as_str()),
        Err(e) => {
            let fallback = if previous {
                "Could not select previous point"
            } else {
                "Could not select next point"
            };
            navigation_error_text(editor, e, fallback)
        },
    }
}

/// "Selected point {value} in {name}".
pub fn selected_point_text(value: i32, name: &str) -> (r: String)
    ensures
        r@ == selected_point_status(value, name@),
{
    let mut text = owned_string("Selected point ");
    push_signed(&mut text, value as i64);
    push_str(&mut text, " in ");
    push_str(&mut text, name);
    text
}

/// The status text after renumbering a sequence from its start value.
pub fn renumber_from_start_status(result: &Result<(String, i32), &str>) -> (r: String)
    ensures
        r@ == match result {
            Ok((name, start)) => "Renumbered sequence "@ + name@ + " from "@ + decimal_text(
                *start as int,
            ),
            Err(e) => e@,
        },
{
    match result {
        Ok((name, start)) => {
            let mut text = owned_string("Renumbered sequence ");
            push_str(&mut text, name.as_str());
            push_str(&mut text, " from ");
            push_signed(&mut text, *start as i64);
            text
        },
        Err(e) => owned_string(e),
    }
}

/// The status text after renumbering the points following the selected one;
/// points are counted from one in the text.
pub fn renumber_following_status(result: &Result<(String, usize), &str>) -> (r: String)
    requires
        result matches Ok((_, p)) ==> p < usize::MAX,
    ensures
        r@ == match result {
            Ok((name, p)) => "Renumbered points after point "@ + decimal_text(*p + 1) + " in "@
                + name@,
            Err(e) => e@,
        },
{
    match result {
        Ok((name, p)) => {
            let mut text = owned_string("Renumbered points after point ");
            push_unsigned(&mut text, (*p + 1) as u64);
            push_str(&mut text, " in ");
            push_str(&mut text, name.as_str());
            text
        },
        Err(e) => owned_string(e),
    }
}

/// The status text after removing the selected point.
pub fn remove_point_status(result: &Result<String, &str>) -> (r: String)
    ensures
        r@ == match result {
            Ok(name) => "Removed point from "@ + name@,
            Err(e) => e@,
        },
{
    match result {
        Ok(name) => {
            let mut text = owned_string("Removed point from ");
            push_str(&mut text, name.as_str());
            text
        },
        Err(e) => owned_string(e),
    }
}

} // verus!
