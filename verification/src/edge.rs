//! What the edge surface starts with, and when its timers may collapse it.
use vstd::prelude::*;

use crate::app::{notes_view, AppState, DeckState, Note, NoteColor, NoteId, NoteView};

verus! {

pub open spec fn starter_note(id: u64, title: Seq<char>, body: Seq<char>, color: NoteColor) -> NoteView {
    NoteView { id: NoteId::spec_new(id), title, body, color, pinned: false }
}

/// The notes the deck shows before anything is stored.
pub open spec fn initial_notes_view() -> Seq<NoteView> {
    seq![
        starter_note(1, "Work"@, "Review the release checklist.\n\n- Confirm the package build\n- Write the release notes\n- Test the upgrade path"@, NoteColor::Yellow),
        starter_note(2, "Homelab"@, "Move the weekly backups to the new drive, then run a restore test before removing the old copy."@, NoteColor::Blue),
        starter_note(3, "Projects"@, "The edge stack should open on hover, keep pointer transitions calm, and get out of the way as soon as Escape is pressed."@, NoteColor::Purple),
        starter_note(4, "Shopping"@, "- Coffee beans\n- AA batteries\n- Two-metre USB-C cable"@, NoteColor::Green),
    ]
}

pub fn initial_notes() -> (notes: Vec<Note>)
    ensures
        notes_view(notes@) == initial_notes_view(),
{
    let mut notes: Vec<Note> = Vec::new();
    notes.push(Note::new(
        NoteId::new(1),
        "Work",
        "Review the release checklist.\n\n- Confirm the package build\n- Write the release notes\n- Test the upgrade path",
        NoteColor::Yellow,
    ));
    notes.push(Note::new(
        NoteId::new(2),
        "Homelab",
        "Move the weekly backups to the new drive, then run a restore test before removing the old copy.",
        NoteColor::Blue,
    ));
    notes.push(Note::new(
        NoteId::new(3),
        "Projects",
        "The edge stack should open on hover, keep pointer transitions calm, and get out of the way as soon as Escape is pressed.",
        NoteColor::Purple,
    ));
    notes.push(Note::new(
        NoteId::new(4),
        "Shopping",
        "- Coffee beans\n- AA batteries\n- Two-metre USB-C cable",
        NoteColor::Green,
    ));
    assert(notes_view(notes@) =~= initial_notes_view());
    notes
}

/// Whether the inactivity and focus-loss timers may collapse the deck: only
/// an open note that is not kept open collapses.
pub fn collapses_when_idle(state: &AppState) -> (collapses: bool)
    ensures
        collapses == (state@.deck is Open && !state@.keep_open),
{
    let open = match state.deck() {
        DeckState::Open(_) => true,
        _ => false,
    };
    open && !state.keep_open()
}

} // verus!
