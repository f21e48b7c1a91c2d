//! The schema-upgrade decisions of the project database: which column an
//! older project file lacks, and the statement that adds it.
use vstd::prelude::*;

use crate::text::owned_string;

verus! {

/// Whether one of `columns` is named `wanted`.
pub fn has_column(columns: &Vec<String>, wanted: &str) -> (r: bool)
    ensures
        r == exists|k: int| 0 <= k < columns@.len() && #[trigger] columns@[k]@ == wanted@,
{
    let target = owned_string(wanted);
    let n = columns.len();
    let mut k: usize = 0;
    while k < n
        invariant
            k <= n,
            n == columns@.len(),
            target@ == wanted@,
            forall|j: int| 0 <= j < k ==> #[trigger] columns@[j]@ != wanted@,
        decreases n - k,
    {
        if columns[k] == target {
            return true;
        }
        k = k + 1;
    }
    false
}

/// The statement that upgrades the `project` table, given its column names:
/// it adds the `image_data` column when that column is missing.
pub fn project_table_migration(columns: &Vec<String>) -> (r: Option<&'static str>)
    ensures
        (exists|k: int| 0 <= k < columns@.len() && #[trigger] columns@[k]@ == "image_data"@)
            ==> r is None,
        !(exists|k: int| 0 <= k < columns@.len() && #[trigger] columns@[k]@ == "image_data"@)
            ==> (r matches Some(s) && s@ == "ALTER TABLE project ADD COLUMN image_data BLOB"@),
{
    if has_column(columns, "image_data") {
        None
    } else {
        Some("ALTER TABLE project ADD COLUMN image_data BLOB")
    }
}

/// The statement that upgrades the `sequence` table, given its column names:
/// it adds the `line_thickness` column (default 3.0) when that column is missing.
pub fn sequence_table_migration(columns: &Vec<String>) -> (r: Option<&'static str>)
    ensures
        (exists|k: int| 0 <= k < columns@.len() && #[trigger] columns@[k]@ == "line_thickness"@)
            ==> r is None,
        !(exists|k: int| 0 <= k < columns@.len() && #[trigger] columns@[k]@ == "line_thickness"@)
            ==> (r matches Some(s) && s@
            == "ALTER TABLE sequence ADD COLUMN line_thickness REAL NOT NULL DEFAULT 3.0"@),
{
    if has_column(columns, "line_thickness") {
        None
    } else {
        Some("ALTER TABLE sequence ADD COLUMN line_thickness REAL NOT NULL DEFAULT 3.0")
    }
}

} // verus!
