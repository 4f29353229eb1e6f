use stickies::app::{AppState, Action, DeckState, Note, NoteColor, NoteId};
use stickies::config::ScreenEdge;
use stickies::edge::{collapses_when_idle, initial_notes};
use stickies::listing::{body_preview, display_title, note_actions, pin_label, status_line};
use stickies::storage::NoteCollection;

#[test]
fn blank_titles_show_as_untitled() {
    let mut note = Note::new(NoteId::new(1), " \t\n", "", NoteColor::Blue);
    assert_eq!(display_title(&note), "Untitled note");
    note.title = String::new();
    assert_eq!(display_title(&note), "Untitled note");
    note.title = "  Plans ".to_owned();
    assert_eq!(display_title(&note), "  Plans ");
}

#[test]
fn previews_put_words_on_one_line() {
    assert_eq!(body_preview("  one\n\ntwo \t three  "), "one two three");
    assert_eq!(body_preview(""), "");
    assert_eq!(body_preview(" \n "), "");
    assert_eq!(body_preview("a\u{2003}b"), "a b");
}

#[test]
fn long_previews_are_cut_after_eighty_characters() {
    let exact = "x".repeat(80);
    assert_eq!(body_preview(&exact), exact);
    let long = format!("{} tail", "é".repeat(79));
    assert_eq!(body_preview(&long), format!("{} ...", "é".repeat(79)));
}

#[test]
fn the_status_line_counts_notes() {
    assert_eq!(status_line(0), "No notes found");
    assert_eq!(status_line(1), "1 note");
    assert_eq!(status_line(2), "2 notes");
    assert_eq!(status_line(130), "130 notes");
}

#[test]
fn note_actions_follow_the_collection_and_the_selection() {
    let active = note_actions(NoteCollection::Active, true);
    assert!(active.pin_visible && active.archive_visible && !active.restore_visible);
    assert!(active.pin_enabled && active.archive_enabled && !active.restore_enabled);
    assert!(active.delete_enabled);
    let archived = note_actions(NoteCollection::Archived, false);
    assert!(!archived.pin_visible && !archived.archive_visible && archived.restore_visible);
    assert!(!archived.restore_enabled && !archived.delete_enabled);
    assert_eq!(pin_label(true), "Unpin");
    assert_eq!(pin_label(false), "Pin");
}

#[test]
fn the_deck_sits_on_the_right_edge_by_default() {
    assert_eq!(ScreenEdge::default(), ScreenEdge::Right);
}

#[test]
fn the_starter_deck_has_four_unpinned_notes() {
    let notes = initial_notes();
    let ids: Vec<u64> = notes.iter().map(|note| note.id.value()).collect();
    assert_eq!(ids, vec![1, 2, 3, 4]);
    assert_eq!(notes[0].title, "Work");
    assert_eq!(notes[3].color, NoteColor::Green);
    assert!(notes.iter().all(|note| !note.pinned));
}

#[test]
fn only_an_open_note_not_kept_open_collapses_when_idle() {
    let mut state = AppState::new(initial_notes());
    assert!(!collapses_when_idle(&state));
    state.dispatch(Action::OpenNote(NoteId::new(2)));
    assert_eq!(state.deck(), DeckState::Open(NoteId::new(2)));
    assert!(collapses_when_idle(&state));
    state.dispatch(Action::SetKeepOpen(true));
    assert!(!collapses_when_idle(&state));
}
