//! Properties that hold of every deck state and every action.
use vstd::prelude::*;

use crate::app::{
    contains_id, dispatch_spec, edit_open_note, edited_note, first_index_of, insert_recent,
    leading_pinned, lemma_first_index_of, lemma_leading_pinned, recent_position, remove_open,
    ActionView, AppStateView, DeckState, Event, NoteId, NoteView,
};

verus! {

/// Pinned notes come before all unpinned ones.
pub open spec fn pinned_first(notes: Seq<NoteView>) -> bool {
    forall|i: int, j: int| 0 <= i < j < notes.len() && #[trigger] notes[j].pinned ==> #[trigger] notes[i].pinned
}

/// No two notes carry the same identifier.
pub open spec fn unique_ids(notes: Seq<NoteView>) -> bool {
    forall|i: int, j: int|
        0 <= i < notes.len() && 0 <= j < notes.len() && i != j ==> #[trigger] notes[i].id
            != #[trigger] notes[j].id
}

/// The session is consistent: "keep open" is only set while a note is open,
/// the open note is in the deck, and an unsaved edit belongs to the open note.
pub open spec fn session_consistent(s: AppStateView) -> bool {
    &&& s.keep_open ==> s.deck is Open
    &&& s.deck matches DeckState::Open(id) ==> contains_id(s.notes, id)
    &&& s.pending_note matches Some(p) ==> s.deck == DeckState::Open(p)
}

/// The actions that start or end a session, or remove the open note.
pub open spec fn changes_session(action: ActionView) -> bool {
    ||| action is ShowTabs
    ||| action is OpenNote
    ||| action is ArchiveOpenNote
    ||| action is DeleteOpenNote
    ||| action is CollapseDeck
}

proof fn lemma_insert_recent(notes: Seq<NoteView>, note: NoteView)
    ensures
        insert_recent(notes, note).len() == notes.len() + 1,
        0 <= recent_position(notes, note) <= notes.len(),
        insert_recent(notes, note)[recent_position(notes, note)] == note,
        forall|x: NoteId|
            #[trigger] contains_id(insert_recent(notes, note), x) <==> (contains_id(notes, x)
                || note.id == x),
        pinned_first(notes) ==> pinned_first(insert_recent(notes, note)),
        unique_ids(notes) && !contains_id(notes, note.id) ==> unique_ids(
            insert_recent(notes, note),
        ),
{
    lemma_leading_pinned(notes);
    let p = recent_position(notes, note);
    let r = insert_recent(notes, note);
    notes.insert_ensures(p, note);
    assert forall|k: int| 0 <= k < r.len() implies #[trigger] r[k] == if k < p {
        notes[k]
    } else if k == p {
        note
    } else {
        notes[k - 1]
    } by {}
    assert forall|x: NoteId| #[trigger]
        contains_id(r, x) <==> (contains_id(notes, x) || note.id == x) by {
        if contains_id(r, x) {
            let k = choose|k: int| 0 <= k < r.len() && #[trigger] r[k].id == x;
            if k < p {
                assert(notes[k].id == x);
            } else if k > p {
                assert(notes[k - 1].id == x);
            }
        }
        if contains_id(notes, x) {
            let k = choose|k: int| 0 <= k < notes.len() && #[trigger] notes[k].id == x;
            if k < p {
                assert(r[k].id == x);
            } else {
                assert(r[k + 1].id == x);
            }
        }
        if note.id == x {
            assert(r[p].id == x);
        }
    }
    if pinned_first(notes) {
        assert forall|i: int, j: int| 0 <= i < j < r.len() && #[trigger] r[j].pinned implies #[trigger] r[i].pinned by {
            if !note.pinned {
                if j > p {
                    assert(notes[j - 1].pinned);
                    if p < notes.len() {
                        assert(!notes[p].pinned);
                        if p < j - 1 {
                            assert(notes[p].pinned);
                        }
                    }
                } else if j < p {
                    assert(notes[i].pinned);
                }
            } else {
                if i > 0 {
                    assert(notes[j - 1].pinned);
                    assert(notes[i - 1].pinned);
                }
            }
        }
    }
    if unique_ids(notes) && !contains_id(notes, note.id) {
        assert forall|i: int, j: int|
            0 <= i < r.len() && 0 <= j < r.len() && i != j implies #[trigger] r[i].id
                != #[trigger] r[j].id by {
            if i == p {
                let k = if j < p {
                    j
                } else {
                    j - 1
                };
                assert(r[j] == notes[k]);
            } else if j == p {
                let k = if i < p {
                    i
                } else {
                    i - 1
                };
                assert(r[i] == notes[k]);
            } else {
                let ki = if i < p {
                    i
                } else {
                    i - 1
                };
                let kj = if j < p {
                    j
                } else {
                    j - 1
                };
                assert(r[i] == notes[ki]);
                assert(r[j] == notes[kj]);
            }
        }
    }
}

proof fn lemma_remove(notes: Seq<NoteView>, i: int)
    requires
        0 <= i < notes.len(),
    ensures
        notes.remove(i).len() == notes.len() - 1,
        forall|x: NoteId|
            #[trigger] contains_id(notes.remove(i), x) ==> contains_id(notes, x),
        forall|x: NoteId|
            contains_id(notes, x) && x != notes[i].id ==> #[trigger] contains_id(
                notes.remove(i),
                x,
            ),
        unique_ids(notes) ==> !contains_id(notes.remove(i), notes[i].id),
        pinned_first(notes) ==> pinned_first(notes.remove(i)),
        unique_ids(notes) ==> unique_ids(notes.remove(i)),
{
    let r = notes.remove(i);
    notes.remove_ensures(i);
    assert forall|k: int| 0 <= k < r.len() implies #[trigger] r[k] == if k < i {
        notes[k]
    } else {
        notes[k + 1]
    } by {}
    assert forall|x: NoteId| #[trigger] contains_id(r, x) implies contains_id(notes, x) by {
        let k = choose|k: int| 0 <= k < r.len() && #[trigger] r[k].id == x;
        if k < i {
            assert(notes[k].id == x);
        } else {
            assert(notes[k + 1].id == x);
        }
    }
    assert forall|x: NoteId| contains_id(notes, x) && x != notes[i].id implies #[trigger] contains_id(
        r,
        x,
    ) by {
        let k = choose|k: int| 0 <= k < notes.len() && #[trigger] notes[k].id == x;
        if k < i {
            assert(r[k].id == x);
        } else {
            assert(r[k - 1].id == x);
        }
    }
    if unique_ids(notes) && contains_id(r, notes[i].id) {
        let k = choose|k: int| 0 <= k < r.len() && #[trigger] r[k].id == notes[i].id;
        if k < i {
            assert(notes[k].id == notes[i].id);
        } else {
            assert(notes[k + 1].id == notes[i].id);
        }
    }
    if pinned_first(notes) {
        assert forall|a: int, b: int| 0 <= a < b < r.len() && #[trigger] r[b].pinned implies #[trigger] r[a].pinned by {
            let kb = if b < i {
                b
            } else {
                b + 1
            };
            let ka = if a < i {
                a
            } else {
                a + 1
            };
            assert(notes[kb].pinned);
            assert(notes[ka].pinned);
        }
    }
    if unique_ids(notes) {
        assert forall|a: int, b: int|
            0 <= a < r.len() && 0 <= b < r.len() && a != b implies #[trigger] r[a].id
                != #[trigger] r[b].id by {
            let kb = if b < i {
                b
            } else {
                b + 1
            };
            let ka = if a < i {
                a
            } else {
                a + 1
            };
            assert(r[a] == notes[ka]);
            assert(r[b] == notes[kb]);
        }
    }
}

/// A refused action (one that reports no event) leaves the deck as it was.
pub proof fn law_refused_action_changes_nothing(s: AppStateView, action: ActionView)
    requires
        dispatch_spec(s, action).1 is None,
    ensures
        dispatch_spec(s, action).0 == s,
{
}

/// Adding, editing, archiving and deleting notes keep pinned notes in front
/// of unpinned ones.
pub proof fn law_dispatch_keeps_pinned_first(s: AppStateView, action: ActionView)
    requires
        pinned_first(s.notes),
    ensures
        pinned_first(dispatch_spec(s, action).0.notes),
{
    lemma_dispatch_notes(s, action);
}

/// No action makes two notes share an identifier: a note whose identifier
/// is already in the deck is not added.
pub proof fn law_dispatch_keeps_ids_unique(s: AppStateView, action: ActionView)
    requires
        unique_ids(s.notes),
    ensures
        unique_ids(dispatch_spec(s, action).0.notes),
{
    lemma_dispatch_notes(s, action);
}

proof fn lemma_dispatch_notes(s: AppStateView, action: ActionView)
    ensures
        pinned_first(s.notes) ==> pinned_first(dispatch_spec(s, action).0.notes),
        unique_ids(s.notes) ==> unique_ids(dispatch_spec(s, action).0.notes),
        forall|x: NoteId|
            #[trigger] contains_id(dispatch_spec(s, action).0.notes, x) ==> contains_id(s.notes, x)
                || (action matches ActionView::AddNote(n) && n.id == x),
{
    match action {
        ActionView::AddNote(note) => {
            lemma_first_index_of(s.notes, note.id);
            lemma_insert_recent(s.notes, note);
        },
        ActionView::UpdateOpenNoteTitle(text) => {
            lemma_edit_notes(s, text, true);
        },
        ActionView::UpdateOpenNoteBody(text) => {
            lemma_edit_notes(s, text, false);
        },
        ActionView::ArchiveOpenNote => {
            lemma_remove_open_notes(s, false);
        },
        ActionView::DeleteOpenNote => {
            lemma_remove_open_notes(s, true);
        },
        _ => {},
    }
}

proof fn lemma_edit_notes(s: AppStateView, text: Seq<char>, edits_title: bool)
    ensures
        pinned_first(s.notes) ==> pinned_first(edit_open_note(s, text, edits_title).0.notes),
        unique_ids(s.notes) ==> unique_ids(edit_open_note(s, text, edits_title).0.notes),
        forall|x: NoteId|
            #[trigger] contains_id(edit_open_note(s, text, edits_title).0.notes, x)
                <==> contains_id(s.notes, x),
        edit_open_note(s, text, edits_title).0.notes.len() == s.notes.len(),
{
    if let DeckState::Open(id) = s.deck {
        lemma_first_index_of(s.notes, id);
        if let Some(i) = first_index_of(s.notes, id) {
            let rest = s.notes.remove(i);
            let note = edited_note(s.notes[i], text, edits_title);
            lemma_remove(s.notes, i);
            lemma_insert_recent(rest, note);
            assert forall|x: NoteId| #[trigger]
                contains_id(insert_recent(rest, note), x) <==> contains_id(s.notes, x) by {
                if x == id {
                    assert(s.notes[i].id == x);
                }
            }
        }
    }
}

proof fn lemma_remove_open_notes(s: AppStateView, delete: bool)
    ensures
        pinned_first(s.notes) ==> pinned_first(remove_open(s, delete).0.notes),
        unique_ids(s.notes) ==> unique_ids(remove_open(s, delete).0.notes),
        forall|x: NoteId| #[trigger]
            contains_id(remove_open(s, delete).0.notes, x) ==> contains_id(s.notes, x),
        s.deck matches DeckState::Open(id) ==> (s.pending_note is None && unique_ids(s.notes)
            ==> !contains_id(remove_open(s, delete).0.notes, id)),
        s.deck matches DeckState::Open(id) ==> s.pending_note is None ==> forall|x: NoteId|
            contains_id(s.notes, x) && x != id ==> #[trigger] contains_id(
                remove_open(s, delete).0.notes,
                x,
            ),
{
    if let DeckState::Open(id) = s.deck {
        lemma_first_index_of(s.notes, id);
        if let Some(i) = first_index_of(s.notes, id) {
            lemma_remove(s.notes, i);
        }
    }
}

/// Every action keeps the session consistent.
pub proof fn law_dispatch_keeps_session_consistent(s: AppStateView, action: ActionView)
    requires
        session_consistent(s),
    ensures
        session_consistent(dispatch_spec(s, action).0),
{
    lemma_dispatch_notes(s, action);
    match action {
        ActionView::AddNote(note) => {
            lemma_first_index_of(s.notes, note.id);
            lemma_insert_recent(s.notes, note);
        },
        ActionView::OpenNote(id) => {
            lemma_first_index_of(s.notes, id);
        },
        ActionView::UpdateOpenNoteTitle(text) => {
            lemma_edit_notes(s, text, true);
        },
        ActionView::UpdateOpenNoteBody(text) => {
            lemma_edit_notes(s, text, false);
        },
        _ => {},
    }
}

/// While an edit is unsaved, the session cannot change: showing the tabs,
/// opening a note, archiving, deleting and collapsing are all refused.
pub proof fn law_pending_edit_blocks_session_changes(s: AppStateView, action: ActionView)
    requires
        session_consistent(s),
        s.pending_note is Some,
        changes_session(action),
    ensures
        dispatch_spec(s, action).1 is None,
        dispatch_spec(s, action).0 == s,
{
}

/// A note that is not in the deck cannot be opened.
pub proof fn law_unknown_note_cannot_be_opened(s: AppStateView, id: NoteId)
    requires
        !contains_id(s.notes, id),
    ensures
        dispatch_spec(s, ActionView::OpenNote(id)) == (s, None::<Event>),
{
    lemma_first_index_of(s.notes, id);
}

/// "Keep open" can only be set while a note is open, and opening a note or
/// collapsing the deck clears it.
pub proof fn law_keep_open_is_per_session(s: AppStateView, keep_open: bool, id: NoteId)
    ensures
        !(s.deck is Open) ==> dispatch_spec(s, ActionView::SetKeepOpen(keep_open)).1 is None,
        !dispatch_spec(s, ActionView::OpenNote(id)).0.keep_open || dispatch_spec(
            s,
            ActionView::OpenNote(id),
        ).1 is None,
        !dispatch_spec(s, ActionView::CollapseDeck).0.keep_open || dispatch_spec(
            s,
            ActionView::CollapseDeck,
        ).1 is None,
{
}

/// Editing the open note's body stores the new body in that note, moves the
/// note to its recent position and marks it unsaved; the other notes stay.
pub proof fn law_edit_updates_open_note(s: AppStateView, id: NoteId, body: Seq<char>)
    requires
        s.deck == DeckState::Open(id),
        contains_id(s.notes, id),
        unique_ids(s.notes),
    ensures
        ({
            let (t, event) = dispatch_spec(s, ActionView::UpdateOpenNoteBody(body));
            let i = first_index_of(s.notes, id)->0;
            &&& s.notes[i].body == body ==> event is None
            &&& s.notes[i].body != body ==> {
                &&& event == Some(Event::NoteEdited(id))
                &&& t.pending_note == Some(id)
                &&& first_index_of(t.notes, id) == Some(
                    recent_position(s.notes.remove(i), s.notes[i]),
                )
                &&& t.notes[recent_position(s.notes.remove(i), s.notes[i])] == NoteView {
                    body,
                    ..s.notes[i]
                }
                &&& forall|x: NoteId| #[trigger] contains_id(t.notes, x) <==> contains_id(s.notes, x)
            }
        }),
{
    lemma_first_index_of(s.notes, id);
    let i = first_index_of(s.notes, id)->0;
    lemma_edit_notes(s, body, false);
    if s.notes[i].body != body {
        let rest = s.notes.remove(i);
        let note = NoteView { body, ..s.notes[i] };
        lemma_insert_recent(rest, note);
        lemma_remove(s.notes, i);
        let t = insert_recent(rest, note);
        let p = recent_position(rest, note);
        assert(recent_position(rest, s.notes[i]) == p);
        lemma_first_index_of(t, id);
        assert(unique_ids(t));
        assert(t[p].id == id);
        let k = first_index_of(t, id)->0;
        if k != p {
            assert(t[k].id == t[p].id);
        }
    }
}

/// Editing the open note's title changes only its title: id, body, color
/// and pinned flag stay, the note moves to its recent position (the front,
/// for a pinned note), and it is marked unsaved.
pub proof fn law_title_edit_changes_only_the_title(s: AppStateView, id: NoteId, title: Seq<char>)
    requires
        s.deck == DeckState::Open(id),
        contains_id(s.notes, id),
        unique_ids(s.notes),
    ensures
        ({
            let (t, event) = dispatch_spec(s, ActionView::UpdateOpenNoteTitle(title));
            let i = first_index_of(s.notes, id)->0;
            &&& s.notes[i].title == title ==> event is None && t == s
            &&& s.notes[i].title != title ==> {
                &&& event == Some(Event::NoteEdited(id))
                &&& t.pending_note == Some(id)
                &&& t.deck == s.deck
                &&& t.keep_open == s.keep_open
                &&& t.notes.len() == s.notes.len()
                &&& first_index_of(t.notes, id) == Some(
                    recent_position(s.notes.remove(i), s.notes[i]),
                )
                &&& s.notes[i].pinned ==> first_index_of(t.notes, id) == Some(0int)
                &&& t.notes[recent_position(s.notes.remove(i), s.notes[i])] == NoteView {
                    title,
                    ..s.notes[i]
                }
                &&& forall|x: NoteId| #[trigger] contains_id(t.notes, x) <==> contains_id(s.notes, x)
            }
        }),
{
    lemma_first_index_of(s.notes, id);
    let i = first_index_of(s.notes, id)->0;
    lemma_edit_notes(s, title, true);
    if s.notes[i].title != title {
        let rest = s.notes.remove(i);
        let note = NoteView { title, ..s.notes[i] };
        assert(edited_note(s.notes[i], title, true) == note);
        lemma_insert_recent(rest, note);
        lemma_remove(s.notes, i);
        let t = insert_recent(rest, note);
        let p = recent_position(rest, note);
        assert(recent_position(rest, s.notes[i]) == p);
        lemma_first_index_of(t, id);
        assert(unique_ids(t));
        assert(t[p].id == id);
        let k = first_index_of(t, id)->0;
        if k != p {
            assert(t[k].id == t[p].id);
        }
    }
}

/// While a note is open, "keep open" can be switched on and off: asking for
/// the other value is accepted, reported, and changes only that flag.
pub proof fn law_keep_open_switches_while_open(s: AppStateView, keep_open: bool)
    requires
        s.deck is Open,
        s.keep_open != keep_open,
    ensures
        dispatch_spec(s, ActionView::SetKeepOpen(keep_open)) == (
            AppStateView { keep_open, ..s },
            Some(Event::KeepOpen(keep_open)),
        ),
        dispatch_spec(s, ActionView::SetKeepOpen(keep_open)).0.keep_open == keep_open,
{
}

/// Archiving or deleting the open note removes it from the deck (and only
/// it), and makes the deck dormant.
pub proof fn law_removing_open_note_drops_it(s: AppStateView, id: NoteId, delete: bool)
    requires
        s.deck == DeckState::Open(id),
        s.pending_note is None,
        contains_id(s.notes, id),
        unique_ids(s.notes),
    ensures
        ({
            let action = if delete {
                ActionView::DeleteOpenNote
            } else {
                ActionView::ArchiveOpenNote
            };
            let (t, event) = dispatch_spec(s, action);
            &&& event == Some(
                if delete {
                    Event::NoteDeleted(id)
                } else {
                    Event::NoteArchived(id)
                },
            )
            &&& t.deck == DeckState::Dormant
            &&& !t.keep_open
            &&& !contains_id(t.notes, id)
            &&& forall|x: NoteId| x != id ==> (#[trigger] contains_id(t.notes, x) <==> contains_id(s.notes, x))
        }),
{
    lemma_first_index_of(s.notes, id);
    lemma_remove_open_notes(s, delete);
}

/// A note whose identifier is already in the deck is not added again.
pub proof fn law_duplicate_note_is_not_added(s: AppStateView, note: NoteView)
    requires
        contains_id(s.notes, note.id),
    ensures
        dispatch_spec(s, ActionView::AddNote(note)) == (s, None::<Event>),
{
    lemma_first_index_of(s.notes, note.id);
}

/// An added note goes to the front if it is pinned, and right after the
/// pinned notes otherwise.
pub proof fn law_added_note_goes_to_recent_position(s: AppStateView, note: NoteView)
    requires
        !contains_id(s.notes, note.id),
    ensures
        ({
            let (t, event) = dispatch_spec(s, ActionView::AddNote(note));
            &&& event == Some(Event::NoteAdded(note.id))
            &&& t.notes == s.notes.insert(
                if note.pinned {
                    0
                } else {
                    leading_pinned(s.notes) as int
                },
                note,
            )
        }),
{
    lemma_first_index_of(s.notes, note.id);
}

/// A new deck is consistent, and so is a deck after its notes are replaced
/// or a note is saved.
pub proof fn law_fresh_replaced_and_saved_decks_are_consistent(
    s: AppStateView,
    notes: Seq<NoteView>,
    saved: NoteId,
)
    ensures
        session_consistent(
            AppStateView { notes, deck: DeckState::Dormant, keep_open: false, pending_note: None },
        ),
        session_consistent(s) && !(s.deck is Open) && s.pending_note is None ==> session_consistent(
            AppStateView { notes, deck: DeckState::Dormant, keep_open: false, ..s },
        ),
        session_consistent(s) ==> session_consistent(
            AppStateView {
                pending_note: if s.pending_note == Some(saved) {
                    None
                } else {
                    s.pending_note
                },
                ..s
            },
        ),
{
}

/// In a consistent deck the note with an unsaved edit is in the deck, so
/// it can always be saved.
pub proof fn law_pending_note_is_in_deck(s: AppStateView, id: NoteId)
    requires
        session_consistent(s),
        s.pending_note == Some(id),
    ensures
        first_index_of(s.notes, id) is Some,
{
    lemma_first_index_of(s.notes, id);
}

} // verus!
