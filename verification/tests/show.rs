use iced_native::image::{Data, Handle};
use slideshow::listing::{ListError, Listing};
use slideshow::show::{message_for, Effect, Key, Message, State, WindowEvent};
use slideshow::startup::{
    choose_directory, dialog_location, fallback_directory, title, PickError, TICK_SECONDS,
};
use std::path::PathBuf;
use std::time::Instant;

fn listing_of(list: &[&str]) -> Listing {
    Ok(list.iter().map(|name| name.to_string()).collect())
}

fn gone() -> Listing {
    Err(ListError { reason: "No such file or directory".to_string() })
}

fn tick() -> Message {
    Message::UpdatePicture(Instant::now())
}

/// The file that the image on screen points to.
fn on_screen(state: &State) -> Option<PathBuf> {
    state.image().map(|handle: &Handle| match handle.data() {
        Data::Path(path) => path.clone(),
        _ => panic!("the handle holds no path"),
    })
}

/// One timer period, as the program around the library drives it.
fn period(state: &mut State, directory_now: &Listing) {
    match state.update(tick()) {
        Effect::Idle => {}
        Effect::ListDirectory => state.directory_listed(directory_now.clone()),
    }
}

#[test]
fn first_image_is_on_screen_at_startup() {
    let state = State::new("pics".to_string(), listing_of(&["b.png", "a.png", "c.png"]));
    assert_eq!(on_screen(&state), Some(PathBuf::from("b.png")));
    assert!(!state.should_exit());
    assert_eq!(state.directory(), "pics");
}

#[test]
fn startup_over_an_empty_directory_shows_nothing() {
    let state = State::new("pics".to_string(), listing_of(&[]));
    assert!(state.image().is_none());
    assert!(!state.should_exit());
}

#[test]
fn startup_over_an_unreadable_directory_shows_nothing() {
    let state = State::new("missing".to_string(), gone());
    assert!(state.image().is_none());
    assert!(!state.should_exit());
    assert_eq!(state.directory(), "missing");
}

#[test]
fn slideshow_cycles_in_enumeration_order() {
    let directory = listing_of(&["b.png", "a.png", "c.png"]);
    let mut state = State::new("pics".to_string(), directory.clone());
    assert_eq!(on_screen(&state), Some(PathBuf::from("b.png")));
    period(&mut state, &directory);
    assert_eq!(on_screen(&state), Some(PathBuf::from("a.png")));
    period(&mut state, &directory);
    assert_eq!(on_screen(&state), Some(PathBuf::from("c.png")));
    period(&mut state, &directory);
    assert_eq!(on_screen(&state), Some(PathBuf::from("b.png")));
}

#[test]
fn tick_with_entries_left_asks_for_nothing() {
    let mut state = State::new("pics".to_string(), listing_of(&["a.png", "b.png"]));
    assert_eq!(state.update(tick()), Effect::Idle);
    assert_eq!(on_screen(&state), Some(PathBuf::from("b.png")));
}

#[test]
fn tick_with_nothing_left_asks_for_a_listing() {
    let mut state = State::new("pics".to_string(), listing_of(&["a.png"]));
    assert_eq!(state.update(tick()), Effect::ListDirectory);
    assert_eq!(on_screen(&state), Some(PathBuf::from("a.png")));
    state.directory_listed(listing_of(&["z.png", "a.png"]));
    assert_eq!(on_screen(&state), Some(PathBuf::from("z.png")));
    assert_eq!(state.update(tick()), Effect::Idle);
    assert_eq!(on_screen(&state), Some(PathBuf::from("a.png")));
}

#[test]
fn image_stays_when_the_directory_is_gone() {
    let mut state = State::new("pics".to_string(), listing_of(&["a.png"]));
    assert_eq!(on_screen(&state), Some(PathBuf::from("a.png")));
    for _ in 0..3 {
        assert_eq!(state.update(tick()), Effect::ListDirectory);
        state.directory_listed(gone());
        assert_eq!(on_screen(&state), Some(PathBuf::from("a.png")));
        assert!(!state.should_exit());
    }
}

#[test]
fn image_stays_when_the_directory_was_emptied() {
    let mut state = State::new("pics".to_string(), listing_of(&["a.png"]));
    period(&mut state, &listing_of(&[]));
    assert_eq!(on_screen(&state), Some(PathBuf::from("a.png")));
}

#[test]
fn empty_directory_keeps_running_without_an_image() {
    let directory = listing_of(&[]);
    let mut state = State::new("pics".to_string(), directory.clone());
    for _ in 0..5 {
        assert_eq!(state.update(tick()), Effect::ListDirectory);
        state.directory_listed(directory.clone());
        assert!(state.image().is_none());
        assert!(!state.should_exit());
    }
}

#[test]
fn files_that_appear_are_shown_after_the_lap() {
    let mut state = State::new("pics".to_string(), listing_of(&[]));
    assert!(state.image().is_none());
    period(&mut state, &listing_of(&["new.png"]));
    assert_eq!(on_screen(&state), Some(PathBuf::from("new.png")));
}

#[test]
fn escape_raises_the_exit_flag() {
    let mut state = State::new("pics".to_string(), listing_of(&["a.png", "b.png"]));
    assert_eq!(state.update(Message::EscapePressed), Effect::Idle);
    assert!(state.should_exit());
    assert_eq!(on_screen(&state), Some(PathBuf::from("a.png")));
}

#[test]
fn ticks_after_escape_change_nothing() {
    let mut state = State::new("pics".to_string(), listing_of(&["a.png", "b.png"]));
    state.update(Message::EscapePressed);
    for _ in 0..4 {
        assert_eq!(state.update(tick()), Effect::Idle);
        assert_eq!(on_screen(&state), Some(PathBuf::from("a.png")));
        assert!(state.should_exit());
    }
}

#[test]
fn listing_after_escape_changes_nothing() {
    let mut state = State::new("pics".to_string(), listing_of(&["a.png"]));
    assert_eq!(state.update(tick()), Effect::ListDirectory);
    state.update(Message::EscapePressed);
    state.directory_listed(listing_of(&["b.png"]));
    assert_eq!(on_screen(&state), Some(PathBuf::from("a.png")));
    assert!(state.should_exit());
    assert_eq!(state.update(tick()), Effect::Idle);
    assert_eq!(on_screen(&state), Some(PathBuf::from("a.png")));
}

#[test]
fn escape_twice_stays_exiting() {
    let mut state = State::new("pics".to_string(), listing_of(&[]));
    state.update(Message::EscapePressed);
    assert_eq!(state.update(Message::EscapePressed), Effect::Idle);
    assert!(state.should_exit());
    assert!(state.image().is_none());
}

#[test]
fn listing_that_was_not_asked_for_is_ignored() {
    let mut state = State::new("pics".to_string(), listing_of(&["a.png", "b.png"]));
    state.directory_listed(listing_of(&["x.png"]));
    assert_eq!(on_screen(&state), Some(PathBuf::from("a.png")));
    assert_eq!(state.update(tick()), Effect::Idle);
    assert_eq!(on_screen(&state), Some(PathBuf::from("b.png")));
}

#[test]
fn handle_points_to_the_entry_not_the_directory() {
    let state = State::new("pics".to_string(), listing_of(&["pics/a.png"]));
    let handle = state.image().expect("an image is on screen");
    assert_eq!(handle.id(), Handle::from_path("pics/a.png").id());
    assert_ne!(handle.id(), Handle::from_path("pics").id());
    assert_eq!(on_screen(&state), Some(PathBuf::from("pics/a.png")));
}

#[test]
fn message_can_be_cloned_and_printed() {
    let message = Message::EscapePressed;
    assert_eq!(format!("{:?}", message.clone()), "EscapePressed");
    let now = Instant::now();
    match Message::UpdatePicture(now).clone() {
        Message::UpdatePicture(at) => assert_eq!(at, now),
        Message::EscapePressed => panic!("a tick became a key press"),
    }
}

#[test]
fn picked_directory_is_taken() {
    assert_eq!(choose_directory(Ok(Some("/home/me/pics".to_string()))), "/home/me/pics");
}

#[test]
fn closed_dialog_falls_back() {
    assert_eq!(choose_directory(Ok(None)), "C:\\tmp\\images");
}

#[test]
fn failed_dialog_falls_back() {
    let failed = Err(PickError { reason: "no dialog program".to_string() });
    assert_eq!(choose_directory(failed), "C:\\tmp\\images");
}

#[test]
fn fixed_settings() {
    assert_eq!(fallback_directory(), r"C:\tmp\images");
    assert_eq!(dialog_location(), "~");
    assert_eq!(title(), "Slideshow");
    assert_eq!(TICK_SECONDS, 5);
}

#[test]
fn pressing_escape_gives_the_escape_message() {
    assert!(matches!(
        message_for(WindowEvent::KeyPressed(Key::Escape)),
        Some(Message::EscapePressed)
    ));
}

#[test]
fn other_window_events_are_dropped() {
    assert!(message_for(WindowEvent::KeyPressed(Key::Other)).is_none());
    assert!(message_for(WindowEvent::KeyReleased(Key::Escape)).is_none());
    assert!(message_for(WindowEvent::KeyReleased(Key::Other)).is_none());
    assert!(message_for(WindowEvent::Other).is_none());
}

#[test]
fn update_with_lists_only_at_wraparound() {
    let mut state = State::new("pics".to_string(), listing_of(&["b.png", "a.png", "c.png"]));
    let mut listings = 0;
    let mut seen = vec![on_screen(&state)];
    for _ in 0..6 {
        state.update_with(tick(), |directory: &String| {
            assert_eq!(directory, "pics");
            listings += 1;
            listing_of(&["b.png", "a.png", "c.png"])
        });
        seen.push(on_screen(&state));
    }
    let expected: Vec<Option<PathBuf>> =
        ["b.png", "a.png", "c.png", "b.png", "a.png", "c.png", "b.png"]
            .iter()
            .map(|name| Some(PathBuf::from(name)))
            .collect();
    assert_eq!(seen, expected);
    assert_eq!(listings, 2);
}

#[test]
fn update_with_after_escape_does_not_list() {
    let mut state = State::new("pics".to_string(), listing_of(&["a.png"]));
    let mut listings = 0;
    state.update_with(Message::EscapePressed, |_directory: &String| {
        listings += 1;
        gone()
    });
    for _ in 0..3 {
        state.update_with(tick(), |_directory: &String| {
            listings += 1;
            listing_of(&["b.png"])
        });
        assert_eq!(on_screen(&state), Some(PathBuf::from("a.png")));
        assert!(state.should_exit());
    }
    assert_eq!(listings, 0);
}

#[test]
fn update_with_keeps_the_image_when_the_directory_is_gone() {
    let mut state = State::new("pics".to_string(), listing_of(&["a.png"]));
    for _ in 0..3 {
        state.update_with(tick(), |_directory: &String| gone());
        assert_eq!(on_screen(&state), Some(PathBuf::from("a.png")));
    }
}

#[test]
fn undecodable_image_leaves_the_screen_and_the_show_goes_on() {
    let mut state = State::new("pics".to_string(), listing_of(&["notes.txt", "a.png"]));
    assert_eq!(on_screen(&state), Some(PathBuf::from("notes.txt")));
    state.image_undecodable();
    assert!(state.image().is_none());
    assert!(!state.should_exit());
    assert_eq!(state.update(tick()), Effect::Idle);
    assert_eq!(on_screen(&state), Some(PathBuf::from("a.png")));
}

#[test]
fn undecodable_image_after_escape_changes_nothing() {
    let mut state = State::new("pics".to_string(), listing_of(&["notes.txt"]));
    state.update(Message::EscapePressed);
    state.image_undecodable();
    assert_eq!(on_screen(&state), Some(PathBuf::from("notes.txt")));
    assert!(state.should_exit());
}
