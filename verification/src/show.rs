//! The state of the viewer, and what a timer tick, a key press and a fresh
//! listing of the directory do to it.

use vstd::prelude::*;
use std::time::Instant;
use iced_native::image::Handle;
use crate::cursor::{lemma_advances_add_up, lemma_round_robin, Cursor, CursorView};
use crate::listing::{listed, Listing};
use crate::picture::{handle_for, handle_path, shown_path};

verus! {

/// `std::time::Instant`, a point in time of the monotonic clock. The timer
/// stamps each tick with one; nothing here looks inside it.
#[verifier::external_type_specification]
#[verifier::external_body]
pub struct ExInstant(std::time::Instant);

/// `Instant::clone`: an `Instant` is `Copy`, so its clone is the same instant.
pub assume_specification[ <std::time::Instant as std::clone::Clone>::clone ](
    instant: &std::time::Instant,
) -> (copy: std::time::Instant)
    ensures
        copy == *instant,
;

/// What the window reports to the viewer.
#[derive(Debug, Clone)]
pub enum Message {
    /// The timer fired: time for the next picture.
    UpdatePicture(Instant),
    /// The escape key went down.
    EscapePressed,
}

/// A key of the keyboard, as far as the viewer tells keys apart.
#[derive(Debug, Clone, Copy, PartialEq, Eq, Structural)]
pub enum Key {
    /// The escape key.
    Escape,
    /// Any other key.
    Other,
}

/// An event of the window system, as far as the viewer tells events apart.
#[derive(Debug, Clone, Copy, PartialEq, Eq, Structural)]
pub enum WindowEvent {
    /// A key went down.
    KeyPressed(Key),
    /// A key came up.
    KeyReleased(Key),
    /// Anything else: the mouse, a resize, a touch.
    Other,
}

/// The message that a window event stands for: pressing escape is the one
/// event that the viewer reacts to.
pub open spec fn event_message(event: WindowEvent) -> Option<Message> {
    if event == WindowEvent::KeyPressed(Key::Escape) {
        Some(Message::EscapePressed)
    } else {
        None
    }
}

/// Turns a window event into the message that the viewer is to get, if any.
/// Every event but the press of the escape key is dropped.
pub fn message_for(event: WindowEvent) -> (message: Option<Message>)
    ensures
        message == event_message(event),
{
    match event {
        WindowEvent::KeyPressed(Key::Escape) => Some(Message::EscapePressed),
        _ => None,
    }
}

/// What the program around the viewer has to do after it handled a message.
#[derive(Debug, Clone, Copy, PartialEq, Eq, Structural)]
pub enum Effect {
    /// Nothing: wait for the next message.
    Idle,
    /// List the viewer's directory and hand the outcome to
    /// [`State::directory_listed`].
    ListDirectory,
}

/// The mathematical content of a [`State`].
pub struct StateView {
    /// Where the slideshow stands in its directory.
    pub cursor: CursorView,
    /// The file whose image is on screen, if any is.
    pub image: Option<Seq<char>>,
    /// Whether the escape key was pressed.
    pub exit: bool,
}

impl StateView {
    /// The viewer before anything was listed or shown.
    pub open spec fn initial(directory: Seq<char>) -> StateView {
        StateView {
            cursor: CursorView::loaded(directory, Seq::empty()),
            image: None,
            exit: false,
        }
    }

    /// The viewer after the cursor moved on and handed out `entry`: a path
    /// goes on screen, and without one the screen stays as it is.
    pub open spec fn show(self, cursor: CursorView, entry: Option<Seq<char>>) -> StateView {
        StateView {
            cursor,
            image: match entry {
                Some(path) => Some(path),
                None => self.image,
            },
            exit: self.exit,
        }
    }

    /// The viewer at startup over `directory`, where listing it gave
    /// `entries`: the first entry is on screen already, if there is one.
    pub open spec fn started(directory: Seq<char>, entries: Seq<Seq<char>>) -> StateView {
        StateView::initial(directory).relisted(entries)
    }

    /// A timer tick. A viewer that is exiting ignores it. Otherwise the next
    /// remaining entry goes on screen; where none remains the viewer is left
    /// as it is and asks for its directory to be listed.
    pub open spec fn tick(self) -> (StateView, Effect) {
        if self.exit {
            (self, Effect::Idle)
        } else if self.cursor.remaining.len() > 0 {
            (self.show(self.cursor.consume().0, self.cursor.consume().1), Effect::Idle)
        } else {
            (self, Effect::ListDirectory)
        }
    }

    /// The escape key: the viewer is exiting from now on.
    pub open spec fn escape(self) -> StateView {
        StateView { cursor: self.cursor, image: self.image, exit: true }
    }

    /// A message from the window.
    pub open spec fn update(self, message: Message) -> (StateView, Effect) {
        match message {
            Message::UpdatePicture(_) => self.tick(),
            Message::EscapePressed => (self.escape(), Effect::Idle),
        }
    }

    /// The directory was listed and gave `entries`. A viewer that is exiting,
    /// or that still has entries to show, ignores the listing. Otherwise the
    /// listing replaces what remained and its first entry goes on screen; an
    /// empty listing leaves the screen as it is.
    pub open spec fn relisted(self, entries: Seq<Seq<char>>) -> StateView {
        if self.exit || self.cursor.remaining.len() > 0 {
            self
        } else {
            self.show(
                self.cursor.relist(entries).consume().0,
                self.cursor.relist(entries).consume().1,
            )
        }
    }

    /// The image on screen could not be decoded: a running viewer takes it
    /// off the screen and goes on as before.
    pub open spec fn undecodable(self) -> StateView {
        if self.exit {
            self
        } else {
            StateView { cursor: self.cursor, image: None, exit: self.exit }
        }
    }

    /// One whole timer period over a directory whose listing would give
    /// `entries`: the tick, and the listing where the tick asked for one.
    pub open spec fn tick_over(self, entries: Seq<Seq<char>>) -> StateView {
        match self.tick().1 {
            Effect::Idle => self.tick().0,
            Effect::ListDirectory => self.tick().0.relisted(entries),
        }
    }
}

/// The viewer: the image on screen, the cursor that picks the next one, and
/// the exit flag.
pub struct State {
    image: Option<Handle>,
    cursor: Cursor,
    exit: bool,
}

impl View for State {
    type V = StateView;

    closed spec fn view(&self) -> StateView {
        StateView { cursor: self.cursor@, image: shown_path(self.image), exit: self.exit }
    }
}

impl State {
    /// The viewer at startup: over `directory`, with the first entry of
    /// `listing` already on screen where there is one.
    pub fn new(directory: String, listing: Listing) -> (state: State)
        ensures
            state@ == StateView::started(directory@, listed(listing)),
    {
        let mut cursor = Cursor::new(directory, listing);
        let image = match cursor.next_entry() {
            Some(path) => Some(handle_for(&path)),
            None => None,
        };
        State { image, cursor, exit: false }
    }

    /// Handles a message from the window, and says what is to be done next.
    pub fn update(&mut self, message: Message) -> (effect: Effect)
        ensures
            (final(self)@, effect) == old(self)@.update(message),
    {
        match message {
            Message::EscapePressed => {
                self.exit = true;
                Effect::Idle
            },
            Message::UpdatePicture(_) => {
                if self.exit {
                    Effect::Idle
                } else if self.cursor.is_exhausted() {
                    Effect::ListDirectory
                } else {
                    match self.cursor.next_entry() {
                        Some(path) => {
                            self.image = Some(handle_for(&path));
                        },
                        None => {},
                    }
                    Effect::Idle
                }
            },
        }
    }

    /// Takes the outcome of listing the directory, after [`State::update`]
    /// asked for it. A listing that failed counts as an empty one.
    pub fn directory_listed(&mut self, listing: Listing)
        ensures
            final(self)@ == old(self)@.relisted(listed(listing)),
    {
        if !self.exit && self.cursor.is_exhausted() {
            match self.cursor.reload(listing) {
                Some(path) => {
                    self.image = Some(handle_for(&path));
                },
                None => {},
            }
        }
    }

    /// Takes note that the image on screen could not be decoded: the screen
    /// is cleared, and the next tick goes on with the entry that follows.
    pub fn image_undecodable(&mut self)
        ensures
            final(self)@ == old(self)@.undecodable(),
    {
        if !self.exit {
            self.image = None;
        }
    }

    /// Handles a message from the window to its end: where the message is a
    /// tick that finds nothing left to show, the directory is listed by
    /// `list` and the listing taken in. Otherwise `list` is not called.
    pub fn update_with<F: FnOnce(&String) -> Listing>(&mut self, message: Message, list: F)
        requires
            forall|directory: &String|
                directory@ == old(self)@.cursor.directory ==> call_requires(list, (directory,)),
        ensures
            old(self)@.update(message).1 == Effect::Idle ==> final(self)@ == old(self)@.update(
                message,
            ).0,
            old(self)@.update(message).1 == Effect::ListDirectory ==> exists|
                directory: &String,
                listing: Listing,
            |
                directory@ == old(self)@.cursor.directory && call_ensures(
                    list,
                    (directory,),
                    listing,
                ) && final(self)@ == old(self)@.update(message).0.relisted(listed(listing)),
    {
        match self.update(message) {
            Effect::Idle => {},
            Effect::ListDirectory => {
                let directory = self.cursor.directory();
                let ghost asked = directory;
                let listing = list(directory);
                let ghost given = listing;
                self.directory_listed(listing);
                assert(asked@ == old(self)@.cursor.directory && call_ensures(
                    list,
                    (asked,),
                    given,
                ) && final(self)@ == old(self)@.update(message).0.relisted(listed(given)));
            },
        }
    }

    /// The directory whose entries are shown.
    pub fn directory(&self) -> (directory: &String)
        ensures
            directory@ == self@.cursor.directory,
    {
        self.cursor.directory()
    }

    /// The image to draw, if there is one.
    pub fn image(&self) -> (image: Option<&Handle>)
        ensures
            image is Some == self@.image is Some,
            image is Some ==> Some(handle_path(*image->Some_0)) == self@.image,
    {
        self.image.as_ref()
    }

    /// Whether the window is to be closed.
    pub fn should_exit(&self) -> (exit: bool)
        ensures
            exit == self@.exit,
    {
        self.exit
    }
}

/// What can reach the viewer: a message from the window, or the outcome of
/// listing its directory.
pub enum Input {
    /// A message from the window.
    Window(Message),
    /// The directory was listed and gave these entries.
    Listed(Seq<Seq<char>>),
    /// The image on screen could not be decoded.
    Undecodable,
}

impl StateView {
    /// The viewer after `n` whole timer periods over a directory whose
    /// listing is always `entries`.
    pub open spec fn periods(self, entries: Seq<Seq<char>>, n: nat) -> StateView
        decreases n,
    {
        if n == 0 {
            self
        } else {
            self.periods(entries, (n - 1) as nat).tick_over(entries)
        }
    }

    /// The viewer after one input.
    pub open spec fn step(self, input: Input) -> StateView {
        match input {
            Input::Window(message) => self.update(message).0,
            Input::Listed(entries) => self.relisted(entries),
            Input::Undecodable => self.undecodable(),
        }
    }

    /// The viewer after a run of inputs, taken in order.
    pub open spec fn run(self, inputs: Seq<Input>) -> StateView
        decreases inputs.len(),
    {
        if inputs.len() == 0 {
            self
        } else {
            self.step(inputs[0]).run(inputs.drop_first())
        }
    }
}

/// Exiting is final. Whatever reaches a viewer that is exiting, ticks, key
/// presses, listings or decoding failures, it stays as it is: the same image on screen, the
/// cursor where it was, and the exit flag up.
pub proof fn lemma_exit_is_final(state: StateView, inputs: Seq<Input>)
    requires
        state.exit,
    ensures
        state.run(inputs) == state,
    decreases inputs.len(),
{
    if inputs.len() > 0 {
        assert(state.step(inputs[0]) == state);
        lemma_exit_is_final(state, inputs.drop_first());
    }
}

/// Escape ends the show. Once the escape key was handled, whatever follows
/// leaves on screen what was there when the key went down, and the exit flag
/// stays up.
pub proof fn lemma_escape_terminates(state: StateView, inputs: Seq<Input>)
    ensures
        state.update(Message::EscapePressed).1 == Effect::Idle,
        state.update(Message::EscapePressed).0.run(inputs).exit,
        state.update(Message::EscapePressed).0.run(inputs).image == state.image,
        state.update(Message::EscapePressed).0.run(inputs).cursor == state.cursor,
{
    lemma_exit_is_final(state.escape(), inputs);
}

/// The exit flag never comes down again, and only the escape key raises it.
pub proof fn lemma_exit_flag(state: StateView, input: Input)
    ensures
        state.step(input).exit == (state.exit || input == Input::Window(Message::EscapePressed)),
{
}

/// The directory is chosen once. Whatever reaches the viewer, it goes on
/// listing the directory that it was started with.
pub proof fn lemma_directory_is_fixed(state: StateView, inputs: Seq<Input>)
    ensures
        state.run(inputs).cursor.directory == state.cursor.directory,
    decreases inputs.len(),
{
    if inputs.len() > 0 {
        lemma_directory_is_fixed(state.step(inputs[0]), inputs.drop_first());
    }
}

/// A picture that cannot be decoded does not stop the show: the cursor and
/// the exit flag stay as they are, so the next timer period shows what it
/// would have shown.
pub proof fn lemma_undecodable_goes_on(state: StateView, entries: Seq<Seq<char>>)
    ensures
        state.undecodable().cursor == state.cursor,
        state.undecodable().exit == state.exit,
        !state.exit ==> state.undecodable().image == None::<Seq<char>>,
        state.cursor.advance(entries).1 is Some ==> state.undecodable().tick_over(entries)
            == state.tick_over(entries),
{
}

/// A whole timer period moves the cursor by one advance: for a viewer that is
/// running, over a directory whose listing would give `entries`, the cursor
/// advances once and what it hands out goes on screen.
pub proof fn lemma_tick_advances(state: StateView, entries: Seq<Seq<char>>)
    requires
        !state.exit,
    ensures
        state.tick_over(entries) == state.show(
            state.cursor.advance(entries).0,
            state.cursor.advance(entries).1,
        ),
{
}

/// The image stays when the directory gives nothing. For a running viewer
/// with nothing left to show, a tick asks for a listing, and an empty or
/// failed listing leaves on screen what was there.
pub proof fn lemma_stale_display(state: StateView)
    requires
        !state.exit,
        state.cursor.remaining.len() == 0,
    ensures
        state.tick() == (state, Effect::ListDirectory),
        state.relisted(Seq::empty()).image == state.image,
        state.tick_over(Seq::empty()).image == state.image,
        state.tick_over(Seq::empty()).cursor.remaining.len() == 0,
{
}

/// The screen follows the cursor. A running viewer keeps running through any
/// number of timer periods; its cursor is then where as many advances lead,
/// and the last period put on screen what the last of these advances handed
/// out, or left the screen as it was where that advance handed out nothing.
pub proof fn lemma_periods_follow_cursor(state: StateView, entries: Seq<Seq<char>>, n: nat)
    requires
        !state.exit,
    ensures
        !state.periods(entries, n).exit,
        state.periods(entries, n).cursor == state.cursor.advance_n(entries, n),
        n > 0 ==> state.periods(entries, n).image == (match state.cursor.nth_yield(
            entries,
            (n - 1) as nat,
        ) {
            Some(path) => Some(path),
            None => state.periods(entries, (n - 1) as nat).image,
        }),
    decreases n,
{
    if n > 0 {
        lemma_periods_follow_cursor(state, entries, (n - 1) as nat);
        lemma_tick_advances(state.periods(entries, (n - 1) as nat), entries);
    }
}

/// The slideshow goes round. Over a directory whose listing is always the
/// same `entries`, not empty, the viewer shows the first entry at startup,
/// entry `k` after `k` timer periods while `k` is less than their number, and
/// the first entry again after as many periods as there are entries.
pub proof fn lemma_slideshow_round_robin(directory: Seq<char>, entries: Seq<Seq<char>>)
    requires
        entries.len() > 0,
    ensures
        forall|k: nat|
            k < entries.len() ==> #[trigger] StateView::started(directory, entries).periods(
                entries,
                k,
            ).image == Some(entries[k as int]),
        StateView::started(directory, entries).periods(entries, entries.len()).image == Some(
            entries[0],
        ),
{
    let started = StateView::started(directory, entries);
    let loaded = CursorView::loaded(directory, entries);
    assert(StateView::initial(directory).cursor.relist(entries) == loaded);
    assert(started.cursor == loaded.advance_n(entries, 1)) by {
        assert(loaded.advance_n(entries, 0) == loaded);
    }
    lemma_round_robin(directory, entries);
    assert forall|k: nat| 0 < k <= entries.len() implies #[trigger] started.periods(
        entries,
        k,
    ).image == loaded.nth_yield(entries, k) by {
        lemma_periods_follow_cursor(started, entries, k);
        lemma_advances_add_up(loaded, entries, 1, (k - 1) as nat);
        assert((1 + (k - 1) as nat) as nat == k);
    }
}

/// Nothing to show, nothing shown. A running viewer with nothing left, over a
/// directory that is empty or cannot be read, is the same after any number of
/// timer periods: what was on screen stays there, and it keeps running.
pub proof fn lemma_empty_directory_show(state: StateView, n: nat)
    requires
        !state.exit,
        state.cursor.remaining.len() == 0,
    ensures
        state.periods(Seq::empty(), n) == state,
    decreases n,
{
    if n > 0 {
        lemma_empty_directory_show(state, (n - 1) as nat);
        assert(state.cursor.relist(Seq::empty()) == state.cursor) by {
            assert(state.cursor.remaining =~= Seq::<Seq<char>>::empty());
        }
    }
}

} // verus!
