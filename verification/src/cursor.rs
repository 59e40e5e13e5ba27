//! The slideshow cursor: a one-way walk over a directory's entries that starts
//! over from a fresh listing when it runs out.

use vstd::prelude::*;
use crate::listing::{entries_or_empty, listed, paths, Listing};

verus! {

/// The mathematical content of a [`Cursor`].
pub struct CursorView {
    /// The directory that is listed.
    pub directory: Seq<char>,
    /// The entries of the current listing that were not handed out yet.
    pub remaining: Seq<Seq<char>>,
}

impl CursorView {
    /// A cursor over `directory` that holds a fresh listing of it.
    pub open spec fn loaded(directory: Seq<char>, entries: Seq<Seq<char>>) -> CursorView {
        CursorView { directory, remaining: entries }
    }

    /// Hands out the next remaining entry, if there is one.
    pub open spec fn consume(self) -> (CursorView, Option<Seq<char>>) {
        if self.remaining.len() > 0 {
            (
                CursorView { directory: self.directory, remaining: self.remaining.drop_first() },
                Some(self.remaining[0]),
            )
        } else {
            (self, None)
        }
    }

    /// Replaces what remains by a fresh listing.
    pub open spec fn relist(self, entries: Seq<Seq<char>>) -> CursorView {
        CursorView { directory: self.directory, remaining: entries }
    }

    /// One whole advance, where listing the directory would give `entries`:
    /// the next remaining entry, or the first of a fresh listing once nothing
    /// remains.
    pub open spec fn advance(self, entries: Seq<Seq<char>>) -> (CursorView, Option<Seq<char>>) {
        if self.remaining.len() > 0 {
            self.consume()
        } else {
            self.relist(entries).consume()
        }
    }

    /// The cursor after `n` advances over a directory whose listing is always `entries`.
    pub open spec fn advance_n(self, entries: Seq<Seq<char>>, n: nat) -> CursorView
        decreases n,
    {
        if n == 0 {
            self
        } else {
            self.advance_n(entries, (n - 1) as nat).advance(entries).0
        }
    }

    /// What advance number `n` (counted from 0) hands out over a directory
    /// whose listing is always `entries`.
    pub open spec fn nth_yield(self, entries: Seq<Seq<char>>, n: nat) -> Option<Seq<char>> {
        self.advance_n(entries, n).advance(entries).1
    }
}

/// The position of a slideshow in its directory.
pub struct Cursor {
    directory: String,
    entries: Vec<String>,
    next: usize,
}

impl View for Cursor {
    type V = CursorView;

    closed spec fn view(&self) -> CursorView {
        CursorView {
            directory: self.directory@,
            remaining: if self.next <= self.entries@.len() {
                paths(self.entries@).subrange(self.next as int, self.entries@.len() as int)
            } else {
                Seq::empty()
            },
        }
    }
}

impl Cursor {
    /// A cursor over `directory`, starting at the first entry of `listing`.
    pub fn new(directory: String, listing: Listing) -> (cursor: Cursor)
        ensures
            cursor@ == CursorView::loaded(directory@, listed(listing)),
    {
        let entries = entries_or_empty(listing);
        let cursor = Cursor { directory, entries, next: 0 };
        assert(cursor@.remaining =~= listed(listing));
        cursor
    }

    /// The directory that has to be listed when the cursor runs out.
    pub fn directory(&self) -> (directory: &String)
        ensures
            directory@ == self@.directory,
    {
        &self.directory
    }

    /// Whether every entry of the current listing was handed out.
    pub fn is_exhausted(&self) -> (exhausted: bool)
        ensures
            exhausted == (self@.remaining.len() == 0),
    {
        self.next >= self.entries.len()
    }

    /// How many entries of the current listing are still to come.
    pub fn remaining_len(&self) -> (n: usize)
        ensures
            n == self@.remaining.len(),
    {
        if self.next <= self.entries.len() {
            self.entries.len() - self.next
        } else {
            0
        }
    }

    /// Hands out the next entry of the current listing. Once nothing remains
    /// it returns `None` and leaves the cursor as it is: the directory then
    /// has to be listed again and the listing given to [`Cursor::reload`].
    pub fn next_entry(&mut self) -> (entry: Option<String>)
        ensures
            (final(self)@, option_path(entry)) == old(self)@.consume(),
    {
        if self.next < self.entries.len() {
            let entry = self.entries[self.next].clone();
            self.next = self.next + 1;
            assert(final(self)@.remaining =~= old(self)@.remaining.drop_first());
            Some(entry)
        } else {
            None
        }
    }

    /// Replaces what remains by a fresh listing of the directory and hands out
    /// its first entry, if it has one. A listing that failed counts as empty.
    pub fn reload(&mut self, listing: Listing) -> (entry: Option<String>)
        ensures
            (final(self)@, option_path(entry)) == old(self)@.relist(listed(listing)).consume(),
    {
        self.entries = entries_or_empty(listing);
        self.next = 0;
        assert(self@.remaining =~= listed(listing));
        self.next_entry()
    }

    /// One whole advance: hands out the next entry, and where none remains
    /// has the directory listed by `list` and starts over with what it gave.
    /// While entries remain `list` is not called.
    pub fn advance_with<F: FnOnce(&String) -> Listing>(&mut self, list: F) -> (entry: Option<
        String,
    >)
        requires
            forall|directory: &String|
                directory@ == old(self)@.directory ==> call_requires(list, (directory,)),
        ensures
            old(self)@.remaining.len() > 0 ==> (final(self)@, option_path(entry)) == old(
                self,
            )@.consume(),
            old(self)@.remaining.len() == 0 ==> exists|directory: &String, listing: Listing|
                directory@ == old(self)@.directory && call_ensures(list, (directory,), listing)
                    && (final(self)@, option_path(entry)) == old(self)@.advance(listed(listing)),
    {
        if self.is_exhausted() {
            let listing = list(&self.directory);
            let ghost given = listing;
            let entry = self.reload(listing);
            assert(call_ensures(list, (&old(self).directory,), given) && (
                final(self)@,
                option_path(entry),
            ) == old(self)@.advance(listed(given)));
            entry
        } else {
            self.next_entry()
        }
    }
}

/// The path that an entry handed out stands for.
pub open spec fn option_path(entry: Option<String>) -> Option<Seq<char>> {
    match entry {
        Some(path) => Some(path@),
        None => None,
    }
}

/// Over a directory whose listing never changes, the cursor that holds the
/// first `k` advances behind it holds the listing without its first `k` entries.
proof fn lemma_advance_within_lap(directory: Seq<char>, entries: Seq<Seq<char>>, k: nat)
    requires
        k <= entries.len(),
    ensures
        CursorView::loaded(directory, entries).advance_n(entries, k) == (CursorView {
            directory,
            remaining: entries.subrange(k as int, entries.len() as int),
        }),
    decreases k,
{
    let start = CursorView::loaded(directory, entries);
    if k == 0 {
        assert(entries.subrange(0, entries.len() as int) =~= entries);
    } else {
        let before = (k - 1) as nat;
        lemma_advance_within_lap(directory, entries, before);
        let rest = entries.subrange(before as int, entries.len() as int);
        assert(start.advance_n(entries, before).remaining == rest);
        assert(rest.drop_first() =~= entries.subrange(k as int, entries.len() as int));
    }
}

/// Round robin. Over a directory whose listing is always the same `entries`,
/// not empty, a cursor that was loaded with that listing hands out each entry
/// once, in the listing's order; the advance after the last entry lists the
/// directory again and hands out the first entry; and from there on the walk
/// repeats, the cursor being where it was after its first advance.
pub proof fn lemma_round_robin(directory: Seq<char>, entries: Seq<Seq<char>>)
    requires
        entries.len() > 0,
    ensures
        forall|k: nat|
            k < entries.len() ==> #[trigger] CursorView::loaded(directory, entries).nth_yield(
                entries,
                k,
            ) == Some(entries[k as int]),
        CursorView::loaded(directory, entries).nth_yield(entries, entries.len()) == Some(
            entries[0],
        ),
        CursorView::loaded(directory, entries).advance_n(entries, entries.len() + 1)
            == CursorView::loaded(directory, entries).advance_n(entries, 1),
{
    let start = CursorView::loaded(directory, entries);
    let n = entries.len();
    assert forall|k: nat| k < n implies #[trigger] start.nth_yield(entries, k) == Some(
        entries[k as int],
    ) by {
        lemma_advance_within_lap(directory, entries, k);
    }
    lemma_advance_within_lap(directory, entries, n);
    lemma_advance_within_lap(directory, entries, 1);
    assert(entries.subrange(n as int, n as int) =~= Seq::empty());
    assert(entries.drop_first() =~= entries.subrange(1, n as int));
    assert(start.advance_n(entries, n).remaining.len() == 0);
    assert(start.advance_n(entries, n + 1) == start.advance_n(entries, n).advance(entries).0);
}

/// Advances add up: `first + then` advances lead where `then` advances lead
/// from the cursor that `first` advances gave.
pub proof fn lemma_advances_add_up(
    cursor: CursorView,
    entries: Seq<Seq<char>>,
    first: nat,
    then: nat,
)
    ensures
        cursor.advance_n(entries, first + then) == cursor.advance_n(entries, first).advance_n(
            entries,
            then,
        ),
    decreases then,
{
    if then > 0 {
        lemma_advances_add_up(cursor, entries, first, (then - 1) as nat);
        assert((first + then - 1) as nat == first + (then - 1) as nat);
    }
}

/// An empty directory stays empty-handed. Where nothing remains and every
/// listing of the directory is empty, be it that it holds nothing or that it
/// cannot be read, every advance hands out nothing and leaves the cursor as
/// it was.
pub proof fn lemma_empty_directory(cursor: CursorView, n: nat)
    requires
        cursor.remaining.len() == 0,
    ensures
        cursor.advance_n(Seq::empty(), n) == cursor,
        cursor.nth_yield(Seq::empty(), n) == None::<Seq<char>>,
    decreases n,
{
    let nothing = Seq::<Seq<char>>::empty();
    assert(cursor.relist(nothing) == cursor) by {
        assert(cursor.remaining =~= nothing);
    }
    if n > 0 {
        lemma_empty_directory(cursor, (n - 1) as nat);
    }
}

/// While entries remain, an advance does not look at the directory: whatever
/// a listing would give, the next remaining entry is handed out.
pub proof fn lemma_advance_mid_lap(
    cursor: CursorView,
    entries: Seq<Seq<char>>,
    others: Seq<Seq<char>>,
)
    requires
        cursor.remaining.len() > 0,
    ensures
        cursor.advance(entries) == cursor.advance(others),
        cursor.advance(entries).1 == Some(cursor.remaining[0]),
{
}

} // verus!
