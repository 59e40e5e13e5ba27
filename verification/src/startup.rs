//! What the viewer is started with: the directory that the user picked, or
//! the fallback where none was picked, and the window's fixed settings.

use vstd::prelude::*;

verus! {

/// The seconds between two pictures.
pub const TICK_SECONDS: u64 = 5;

/// Why the directory dialog gave no answer.
#[derive(Debug, Clone)]
pub struct PickError {
    /// What the dialog reported, for the operator's log.
    pub reason: String,
}

/// What the directory dialog gave: the directory picked, nothing where the
/// user closed it, or the reason why it could not be shown.
pub type Picked = Result<Option<String>, PickError>;

/// The directory that is shown where the user picked none.
pub open spec fn fallback_path() -> Seq<char> {
    "C:\\tmp\\images"@
}

/// The directory that the slideshow runs over: the one picked, else the fallback.
pub open spec fn chosen(picked: Picked) -> Seq<char> {
    match picked {
        Ok(Some(directory)) => directory@,
        _ => fallback_path(),
    }
}

/// The directory that is shown where the user picked none.
pub fn fallback_directory() -> (directory: String)
    ensures
        directory@ == fallback_path(),
{
    "C:\\tmp\\images".to_string()
}

/// The place where the directory dialog opens: the user's home.
pub fn dialog_location() -> (location: String)
    ensures
        location@ == "~"@,
{
    "~".to_string()
}

/// The window's title.
pub fn title() -> (title: String)
    ensures
        title@ == "Slideshow"@,
{
    "Slideshow".to_string()
}

/// Settles the directory of the slideshow from what the dialog gave. A dialog
/// that failed or was closed is not asked again: the fallback takes its place.
pub fn choose_directory(picked: Picked) -> (directory: String)
    ensures
        directory@ == chosen(picked),
{
    match picked {
        Ok(Some(directory)) => directory,
        _ => fallback_directory(),
    }
}

} // verus!
