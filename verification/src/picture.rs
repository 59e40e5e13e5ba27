//! The handle by which the window's image widget is told what to draw.

use vstd::prelude::*;
use iced_native::image::Handle;

verus! {

/// `iced_native::image::Handle`, by which the image widget is told what to
/// draw. Nothing of its inside is visible here.
#[verifier::external_type_specification]
#[verifier::external_body]
pub struct ExHandle(iced_native::image::Handle);

/// The file that an image handle made from a path points to.
pub uninterp spec fn handle_path(handle: Handle) -> Seq<char>;

/// Makes the handle for the image file at `path`, by a call of
/// `iced_native::image::Handle::from_path`. Believed, not proved: the handle
/// that comes back points to the file at exactly that path. The file is not
/// opened by this call.
#[verifier::external_body]
pub(crate) fn handle_for(path: &String) -> (handle: Handle)
    ensures
        handle_path(handle) == path@,
{
    Handle::from_path(path.clone())
}

/// The file that the image on screen was read from, where there is an image.
pub open spec fn shown_path(image: Option<Handle>) -> Option<Seq<char>> {
    match image {
        Some(handle) => Some(handle_path(handle)),
        None => None,
    }
}

} // verus!
