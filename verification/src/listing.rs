//! The outcome of listing a directory, and the policy for a listing that failed.

use vstd::prelude::*;

verus! {

/// Why a directory could not be listed.
#[derive(Debug, Clone)]
pub struct ListError {
    /// What the operating system said, for the operator's log.
    pub reason: String,
}

/// What listing a directory gave: its entries in enumeration order, or the
/// reason why it could not be read.
pub type Listing = Result<Vec<String>, ListError>;

/// The paths that a vector of entries stands for, in order.
pub open spec fn paths(entries: Seq<String>) -> Seq<Seq<char>> {
    Seq::new(entries.len(), |i: int| entries[i]@)
}

/// The entries that a listing contributes to the slideshow: its own where the
/// directory was read, none where it was not.
pub open spec fn listed(listing: Listing) -> Seq<Seq<char>> {
    match listing {
        Ok(entries) => paths(entries@),
        Err(_) => Seq::empty(),
    }
}

/// Collapses a listing to its entries. A directory that could not be read
/// counts as an empty one: the slideshow goes on with nothing to show.
pub fn entries_or_empty(listing: Listing) -> (entries: Vec<String>)
    ensures
        paths(entries@) == listed(listing),
        listing is Ok ==> entries == listing->Ok_0,
        listing is Err ==> entries@.len() == 0,
{
    match listing {
        Ok(entries) => entries,
        Err(_) => {
            let entries: Vec<String> = Vec::new();
            assert(paths(entries@) =~= Seq::empty());
            entries
        },
    }
}

} // verus!
