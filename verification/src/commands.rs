//! Which project-level commands may run in the current state.
use vstd::prelude::*;

verus! {

/// A project-level command that depends on whether an image is embedded.
#[derive(Clone, Copy, Debug, PartialEq, Eq, Structural)]
pub enum ProjectCommand {
    /// Import an image into a new, empty project.
    ImportImage,
    /// Save the project, which needs its embedded image.
    SaveProject,
}

/// Why `command` cannot run now, or `None` when it can: an image is only
/// imported into a project without one, and a project is only saved with one.
pub fn command_refusal(command: ProjectCommand, has_image: bool) -> (r: Option<&'static str>)
    ensures
        command == ProjectCommand::ImportImage ==> (if has_image {
            r matches Some(m) && m@ == "Import Image is only available for a new empty project"@
        } else {
            r is None
        }),
        command == ProjectCommand::SaveProject ==> (if has_image {
            r is None
        } else {
            r matches Some(m) && m@ == "Cannot save project without an embedded image"@
        }),
{
    match command {
        ProjectCommand::ImportImage => if has_image {
            Some("Import Image is only available for a new empty project")
        } else {
            None
        },
        ProjectCommand::SaveProject => if has_image {
            None
        } else {
            Some("Cannot save project without an embedded image")
        },
    }
}

} // verus!
