use stickies::app::{Action, AppState, DeckState, Event, Note, NoteColor, NoteId};

fn ids(state: &AppState) -> Vec<u64> {
    state.notes().iter().map(|note| note.id.value()).collect()
}

fn deck_of(ids: &[u64]) -> AppState {
    AppState::new(
        ids.iter()
            .map(|&id| Note::new(NoteId::new(id), "Note", "Body", NoteColor::Yellow))
            .collect(),
    )
}

#[test]
fn a_note_with_a_known_id_is_not_added_again() {
    let mut state = deck_of(&[1, 2]);
    let copy = Note::new(NoteId::new(2), "Copy", "", NoteColor::Green);
    assert_eq!(state.dispatch(Action::AddNote(copy)), None);
    assert_eq!(ids(&state), vec![1, 2]);
    assert_eq!(state.note(NoteId::new(2)).unwrap().title, "Note");
}

#[test]
fn a_refused_action_leaves_the_deck_unchanged() {
    let mut state = deck_of(&[1, 2]);
    state.dispatch(Action::OpenNote(NoteId::new(2)));
    assert_eq!(
        state.dispatch(Action::UpdateOpenNoteBody("Body".to_owned())),
        None
    );
    assert_eq!(ids(&state), vec![1, 2]);
    assert!(state.pending_note().is_none());
    assert_eq!(state.dispatch(Action::ShowTabs), None);
    assert_eq!(state.dispatch(Action::SetKeepOpen(false)), None);
    assert_eq!(state.deck(), DeckState::Open(NoteId::new(2)));
}

#[test]
fn archiving_removes_only_the_open_note() {
    let mut state = deck_of(&[1, 2, 3]);
    state.dispatch(Action::OpenNote(NoteId::new(2)));
    state.dispatch(Action::SetKeepOpen(true));
    assert_eq!(
        state.dispatch(Action::ArchiveOpenNote),
        Some(Event::NoteArchived(NoteId::new(2)))
    );
    assert_eq!(ids(&state), vec![1, 3]);
    assert_eq!(state.deck(), DeckState::Dormant);
    assert!(!state.keep_open());
    assert_eq!(state.dispatch(Action::DeleteOpenNote), None);
}

#[test]
fn a_pinned_note_is_added_at_the_front() {
    let mut state = deck_of(&[1, 2]);
    let mut pinned = Note::new(NoteId::new(9), "Pinned", "", NoteColor::Purple);
    pinned.pinned = true;
    assert_eq!(
        state.dispatch(Action::AddNote(pinned)),
        Some(Event::NoteAdded(NoteId::new(9)))
    );
    assert_eq!(ids(&state), vec![9, 1, 2]);
    state.dispatch(Action::AddNote(Note::new(
        NoteId::new(4),
        "Plain",
        "",
        NoteColor::Blue,
    )));
    assert_eq!(ids(&state), vec![9, 4, 1, 2]);
}

#[test]
fn editing_moves_the_note_and_keeps_the_others() {
    let mut state = deck_of(&[1, 2, 3]);
    state.dispatch(Action::OpenNote(NoteId::new(3)));
    assert_eq!(
        state.dispatch(Action::UpdateOpenNoteTitle("New".to_owned())),
        Some(Event::NoteEdited(NoteId::new(3)))
    );
    assert_eq!(ids(&state), vec![3, 1, 2]);
    assert_eq!(state.notes()[0].title, "New");
    assert_eq!(state.notes()[0].body, "Body");
    assert_eq!(state.pending_note().unwrap().id, NoteId::new(3));
    state.note_saved(NoteId::new(3));
    assert!(state.pending_note().is_none());
}

#[test]
fn a_new_deck_replaces_a_dormant_one() {
    let mut state = deck_of(&[1]);
    state.dispatch(Action::ShowTabs);
    assert_eq!(state.deck(), DeckState::Tabs);
    assert!(state.replace_notes(vec![Note::new(
        NoteId::new(8),
        "Fresh",
        "",
        NoteColor::Green
    )]));
    assert_eq!(ids(&state), vec![8]);
    assert_eq!(state.deck(), DeckState::Dormant);
    assert!(state.note(NoteId::new(1)).is_none());
}

#[test]
fn the_first_of_two_notes_with_one_id_is_the_one_found() {
    let mut state = AppState::new(vec![
        Note::new(NoteId::new(5), "First", "", NoteColor::Yellow),
        Note::new(NoteId::new(5), "Second", "", NoteColor::Yellow),
    ]);
    assert_eq!(state.note(NoteId::new(5)).unwrap().title, "First");
    state.dispatch(Action::OpenNote(NoteId::new(5)));
    state.dispatch(Action::DeleteOpenNote);
    assert_eq!(state.notes().len(), 1);
    assert_eq!(state.notes()[0].title, "Second");
}
