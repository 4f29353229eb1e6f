use stickies::app::{Action, AppState, DeckState, Event, Note, NoteColor, NoteId};

fn state() -> AppState {
    AppState::new(vec![Note::new(
        NoteId::new(1),
        "Work",
        "Initial body",
        NoteColor::Yellow,
    )])
}

#[test]
fn deck_moves_from_dormant_to_tabs_to_open_and_back() {
    let mut state = state();
    let note_id = NoteId::new(1);

    assert_eq!(state.deck(), DeckState::Dormant);
    assert_eq!(
        state.dispatch(Action::ShowTabs),
        Some(Event::Deck(DeckState::Tabs))
    );
    assert_eq!(
        state.dispatch(Action::OpenNote(note_id)),
        Some(Event::Deck(DeckState::Open(note_id)))
    );
    assert_eq!(
        state.dispatch(Action::CollapseDeck),
        Some(Event::Deck(DeckState::Dormant))
    );
}

#[test]
fn editing_an_open_note_updates_its_body() {
    let mut state = state();
    let note_id = NoteId::new(1);
    state.dispatch(Action::AddNote(Note::new(
        NoteId::new(2),
        "Later note",
        "",
        NoteColor::Blue,
    )));
    state.dispatch(Action::OpenNote(note_id));

    assert_eq!(
        state.dispatch(Action::UpdateOpenNoteBody("Changed body".to_owned())),
        Some(Event::NoteEdited(note_id))
    );
    assert_eq!(
        state.note(note_id).map(|note| note.body.as_str()),
        Some("Changed body")
    );
    assert_eq!(state.notes()[0].id, note_id);
}

#[test]
fn an_unknown_note_cannot_be_opened() {
    let mut state = state();

    assert_eq!(state.dispatch(Action::OpenNote(NoteId::new(99))), None);
    assert_eq!(state.deck(), DeckState::Dormant);
}

#[test]
fn keep_open_only_applies_to_the_current_open_session() {
    let mut state = state();

    assert_eq!(state.dispatch(Action::SetKeepOpen(true)), None);
    state.dispatch(Action::OpenNote(NoteId::new(1)));
    assert_eq!(
        state.dispatch(Action::SetKeepOpen(true)),
        Some(Event::KeepOpen(true))
    );
    assert!(state.keep_open());

    state.dispatch(Action::CollapseDeck);
    assert!(!state.keep_open());
}

#[test]
fn a_note_can_be_added_and_its_title_edited() {
    let mut state = state();
    let note = Note::new(NoteId::new(2), "Untitled note", "", NoteColor::Yellow);

    assert_eq!(
        state.dispatch(Action::AddNote(note)),
        Some(Event::NoteAdded(NoteId::new(2)))
    );
    state.dispatch(Action::OpenNote(NoteId::new(2)));
    assert_eq!(
        state.dispatch(Action::UpdateOpenNoteTitle("Ideas".to_owned())),
        Some(Event::NoteEdited(NoteId::new(2)))
    );
    assert_eq!(
        state.note(NoteId::new(2)).map(|note| note.title.as_str()),
        Some("Ideas")
    );
}

#[test]
fn archiving_or_deleting_removes_the_open_note() {
    let mut archived = state();
    archived.dispatch(Action::OpenNote(NoteId::new(1)));
    assert_eq!(
        archived.dispatch(Action::ArchiveOpenNote),
        Some(Event::NoteArchived(NoteId::new(1)))
    );
    assert!(archived.notes().is_empty());
    assert_eq!(archived.deck(), DeckState::Dormant);

    let mut deleted = state();
    deleted.dispatch(Action::OpenNote(NoteId::new(1)));
    assert_eq!(
        deleted.dispatch(Action::DeleteOpenNote),
        Some(Event::NoteDeleted(NoteId::new(1)))
    );
    assert!(deleted.notes().is_empty());
}

#[test]
fn pending_edits_block_session_changes_until_the_same_note_is_saved() {
    let mut state = state();
    let id = NoteId::new(1);
    state.dispatch(Action::AddNote(Note::new(
        NoteId::new(2),
        "Other",
        "",
        NoteColor::Blue,
    )));
    state.dispatch(Action::OpenNote(id));
    state.dispatch(Action::SetKeepOpen(true));
    state.dispatch(Action::UpdateOpenNoteBody("Unsaved".to_owned()));

    state.note_saved(NoteId::new(2));
    for action in [
        Action::CollapseDeck,
        Action::OpenNote(NoteId::new(2)),
        Action::ArchiveOpenNote,
        Action::DeleteOpenNote,
        Action::ShowTabs,
    ] {
        assert_eq!(state.dispatch(action), None);
    }
    assert!(!state.replace_notes(Vec::new()));
    assert_eq!(state.deck(), DeckState::Open(id));
    assert!(state.keep_open());
    assert_eq!(state.pending_note().unwrap().body, "Unsaved");

    state.note_saved(id);
    assert!(state.pending_note().is_none());
    // Even a saved open note must survive a background deck refresh.
    assert!(!state.replace_notes(Vec::new()));
    assert_eq!(state.deck(), DeckState::Open(id));
    assert!(state.keep_open());
    assert_eq!(
        state.dispatch(Action::CollapseDeck),
        Some(Event::Deck(DeckState::Dormant))
    );
    assert!(state.replace_notes(Vec::new()));
}

#[test]
fn creating_and_editing_keep_pinned_notes_first() {
    let mut pinned = Note::new(NoteId::new(1), "Pinned", "", NoteColor::Yellow);
    pinned.pinned = true;
    let mut state = AppState::new(vec![pinned]);
    for id in [2, 3] {
        state.dispatch(Action::AddNote(Note::new(
            NoteId::new(id),
            "Other",
            "",
            NoteColor::Blue,
        )));
    }
    assert_eq!(
        state
            .notes()
            .iter()
            .map(|note| note.id.value())
            .collect::<Vec<_>>(),
        vec![1, 3, 2]
    );
    state.dispatch(Action::OpenNote(NoteId::new(2)));
    for action in [
        Action::UpdateOpenNoteTitle("Edited title".to_owned()),
        Action::UpdateOpenNoteBody("Edited body".to_owned()),
    ] {
        state.dispatch(action);
        assert_eq!(
            state
                .notes()
                .iter()
                .map(|note| note.id.value())
                .collect::<Vec<_>>(),
            vec![1, 2, 3]
        );
    }
}
