//! The edge deck: the notes it shows, which of them is open, and the
//! session rules that decide how each user action changes that state.
use vstd::prelude::*;

verus! {

/// Identifier of a note, as stored in the database.
#[derive(Clone, Copy, Debug, PartialEq, Eq, Hash, Structural)]
pub struct NoteId(u64);

impl View for NoteId {
    type V = u64;

    closed spec fn view(&self) -> u64 {
        self.0
    }
}

/// Two identifiers are the same exactly when they carry the same number.
pub proof fn lemma_note_id_view_injective(a: NoteId, b: NoteId)
    ensures
        a == b <==> a@ == b@,
{
}

impl NoteId {
    /// The identifier that carries `value`.
    pub closed spec fn spec_new(value: u64) -> NoteId {
        NoteId(value)
    }

    pub proof fn lemma_new_carries_value(value: u64)
        ensures
            Self::spec_new(value)@ == value,
    {
    }

    pub fn new(value: u64) -> (id: Self)
        ensures
            id@ == value,
            id == Self::spec_new(value),
    {
        NoteId(value)
    }

    pub fn value(self) -> (v: u64)
        ensures
            v == self@,
    {
        self.0
    }
}

#[derive(Clone, Copy, Debug, PartialEq, Eq, Structural)]
pub enum NoteColor {
    Yellow,
    Blue,
    Purple,
    Green,
}

#[derive(Clone, Debug, PartialEq, Eq)]
pub struct Note {
    pub id: NoteId,
    pub title: String,
    pub body: String,
    pub color: NoteColor,
    pub pinned: bool,
}

/// A note as a mathematical value: its texts as character sequences.
#[verifier::ext_equal]
pub struct NoteView {
    pub id: NoteId,
    pub title: Seq<char>,
    pub body: Seq<char>,
    pub color: NoteColor,
    pub pinned: bool,
}

impl View for Note {
    type V = NoteView;

    open spec fn view(&self) -> NoteView {
        NoteView {
            id: self.id,
            title: self.title@,
            body: self.body@,
            color: self.color,
            pinned: self.pinned,
        }
    }
}

impl Note {
    /// A new, unpinned note.
    pub fn new(id: NoteId, title: &str, body: &str, color: NoteColor) -> (note: Self)
        ensures
            note@ == (NoteView { id, title: title@, body: body@, color, pinned: false }),
    {
        Note { id, title: title.to_owned(), body: body.to_owned(), color, pinned: false }
    }
}

#[derive(Clone, Copy, Debug, PartialEq, Eq, Structural)]
pub enum DeckState {
    Dormant,
    Tabs,
    Open(NoteId),
}

#[derive(Debug, PartialEq, Eq)]
pub enum Action {
    ShowTabs,
    AddNote(Note),
    OpenNote(NoteId),
    UpdateOpenNoteTitle(String),
    UpdateOpenNoteBody(String),
    ArchiveOpenNote,
    DeleteOpenNote,
    SetKeepOpen(bool),
    CollapseDeck,
}

/// An action with its texts and note taken by their views.
pub enum ActionView {
    ShowTabs,
    AddNote(NoteView),
    OpenNote(NoteId),
    UpdateOpenNoteTitle(Seq<char>),
    UpdateOpenNoteBody(Seq<char>),
    ArchiveOpenNote,
    DeleteOpenNote,
    SetKeepOpen(bool),
    CollapseDeck,
}

impl View for Action {
    type V = ActionView;

    open spec fn view(&self) -> ActionView {
        match self {
            Action::ShowTabs => ActionView::ShowTabs,
            Action::AddNote(note) => ActionView::AddNote(note@),
            Action::OpenNote(id) => ActionView::OpenNote(*id),
            Action::UpdateOpenNoteTitle(title) => ActionView::UpdateOpenNoteTitle(title@),
            Action::UpdateOpenNoteBody(body) => ActionView::UpdateOpenNoteBody(body@),
            Action::ArchiveOpenNote => ActionView::ArchiveOpenNote,
            Action::DeleteOpenNote => ActionView::DeleteOpenNote,
            Action::SetKeepOpen(keep_open) => ActionView::SetKeepOpen(*keep_open),
            Action::CollapseDeck => ActionView::CollapseDeck,
        }
    }
}

#[derive(Clone, Copy, Debug, PartialEq, Eq, Structural)]
pub enum Event {
    Deck(DeckState),
    NoteAdded(NoteId),
    NoteEdited(NoteId),
    NoteArchived(NoteId),
    NoteDeleted(NoteId),
    KeepOpen(bool),
}

pub struct AppState {
    notes: Vec<Note>,
    deck: DeckState,
    keep_open: bool,
    pending_note: Option<NoteId>,
}

/// The deck state as a mathematical value.
#[verifier::ext_equal]
pub struct AppStateView {
    /// The deck's notes, in the order in which they are shown.
    pub notes: Seq<NoteView>,
    pub deck: DeckState,
    /// Whether the open note stays open while other windows have focus.
    pub keep_open: bool,
    /// A note whose edit has not been saved yet.
    pub pending_note: Option<NoteId>,
}

pub open spec fn notes_view(notes: Seq<Note>) -> Seq<NoteView> {
    notes.map_values(|note: Note| note@)
}

/// The position of the first note with identifier `id`, if any note has it.
pub open spec fn first_index_of(notes: Seq<NoteView>, id: NoteId) -> Option<int>
    decreases notes.len(),
{
    if notes.len() == 0 {
        None
    } else if notes[0].id == id {
        Some(0)
    } else {
        match first_index_of(notes.drop_first(), id) {
            Some(i) => Some(i + 1),
            None => None,
        }
    }
}

/// How many notes at the front of `notes` are pinned.
pub open spec fn leading_pinned(notes: Seq<NoteView>) -> nat
    decreases notes.len(),
{
    if notes.len() > 0 && notes[0].pinned {
        1 + leading_pinned(notes.drop_first())
    } else {
        0
    }
}

/// Where a note goes when it is added or edited: a pinned note to the
/// very front, any other note right after the pinned notes at the front.
pub open spec fn recent_position(notes: Seq<NoteView>, note: NoteView) -> int {
    if note.pinned {
        0
    } else {
        leading_pinned(notes) as int
    }
}

pub open spec fn insert_recent(notes: Seq<NoteView>, note: NoteView) -> Seq<NoteView> {
    notes.insert(recent_position(notes, note), note)
}

pub open spec fn contains_id(notes: Seq<NoteView>, id: NoteId) -> bool {
    exists|i: int| 0 <= i < notes.len() && #[trigger] notes[i].id == id
}

/// `note` with its title (`edits_title`) or its body replaced by `text`.
pub open spec fn edited_note(note: NoteView, text: Seq<char>, edits_title: bool) -> NoteView {
    if edits_title {
        NoteView { title: text, ..note }
    } else {
        NoteView { body: text, ..note }
    }
}

/// Editing the open note's title (`edits_title`) or body: nothing happens
/// unless a note is open, is in the deck and the text differs; otherwise the
/// note moves to the recent position and waits to be saved.
pub open spec fn edit_open_note(s: AppStateView, text: Seq<char>, edits_title: bool) -> (
    AppStateView,
    Option<Event>,
) {
    match s.deck {
        DeckState::Open(id) => match first_index_of(s.notes, id) {
            Some(i) => {
                let old_text = if edits_title {
                    s.notes[i].title
                } else {
                    s.notes[i].body
                };
                if old_text == text {
                    (s, None)
                } else {
                    let note = edited_note(s.notes[i], text, edits_title);
                    (
                        AppStateView {
                            notes: insert_recent(s.notes.remove(i), note),
                            pending_note: Some(id),
                            ..s
                        },
                        Some(Event::NoteEdited(id)),
                    )
                }
            },
            None => (s, None),
        },
        _ => (s, None),
    }
}

/// Archiving or deleting the open note: refused while an edit is unsaved,
/// when no note is open, or when the open note is not in the deck.
pub open spec fn remove_open(s: AppStateView, delete: bool) -> (AppStateView, Option<Event>) {
    if s.pending_note is Some {
        (s, None)
    } else {
        match s.deck {
            DeckState::Open(id) => match first_index_of(s.notes, id) {
                Some(i) => (
                    AppStateView {
                        notes: s.notes.remove(i),
                        deck: DeckState::Dormant,
                        keep_open: false,
                        ..s
                    },
                    Some(
                        if delete {
                            Event::NoteDeleted(id)
                        } else {
                            Event::NoteArchived(id)
                        },
                    ),
                ),
                None => (s, None),
            },
            _ => (s, None),
        }
    }
}

/// The state after an action, and the event it reports (`None` when the
/// action is refused, which leaves the state as it was).
pub open spec fn dispatch_spec(s: AppStateView, action: ActionView) -> (AppStateView, Option<Event>) {
    match action {
        ActionView::ShowTabs => {
            if s.deck is Open {
                (s, None)
            } else {
                (AppStateView { deck: DeckState::Tabs, ..s }, Some(Event::Deck(DeckState::Tabs)))
            }
        },
        ActionView::AddNote(note) => {
            if first_index_of(s.notes, note.id) is Some {
                (s, None)
            } else {
                (
                    AppStateView { notes: insert_recent(s.notes, note), ..s },
                    Some(Event::NoteAdded(note.id)),
                )
            }
        },
        ActionView::OpenNote(id) => {
            if s.pending_note is Some || first_index_of(s.notes, id) is None {
                (s, None)
            } else {
                (
                    AppStateView { deck: DeckState::Open(id), keep_open: false, ..s },
                    Some(Event::Deck(DeckState::Open(id))),
                )
            }
        },
        ActionView::UpdateOpenNoteTitle(title) => edit_open_note(s, title, true),
        ActionView::UpdateOpenNoteBody(body) => edit_open_note(s, body, false),
        ActionView::ArchiveOpenNote => remove_open(s, false),
        ActionView::DeleteOpenNote => remove_open(s, true),
        ActionView::SetKeepOpen(keep_open) => {
            if !(s.deck is Open) || s.keep_open == keep_open {
                (s, None)
            } else {
                (AppStateView { keep_open, ..s }, Some(Event::KeepOpen(keep_open)))
            }
        },
        ActionView::CollapseDeck => {
            if s.pending_note is Some {
                (s, None)
            } else {
                (
                    AppStateView { deck: DeckState::Dormant, keep_open: false, ..s },
                    Some(Event::Deck(DeckState::Dormant)),
                )
            }
        },
    }
}

/// `first_index_of` finds the first note that carries the identifier.
pub proof fn lemma_first_index_of(notes: Seq<NoteView>, id: NoteId)
    ensures
        match first_index_of(notes, id) {
            Some(i) => {
                &&& 0 <= i < notes.len()
                &&& notes[i].id == id
                &&& forall|j: int| 0 <= j < i ==> notes[j].id != id
            },
            None => forall|j: int| 0 <= j < notes.len() ==> notes[j].id != id,
        },
        (first_index_of(notes, id) is Some) == contains_id(notes, id),
    decreases notes.len(),
{
    if notes.len() > 0 && notes[0].id != id {
        let rest = notes.drop_first();
        lemma_first_index_of(rest, id);
        assert forall|j: int| 1 <= j < notes.len() implies notes[j] == rest[j - 1] by {}
        if contains_id(notes, id) {
            let k = choose|k: int| 0 <= k < notes.len() && #[trigger] notes[k].id == id;
            assert(rest[k - 1].id == id);
        }
        if contains_id(rest, id) {
            let k = choose|k: int| 0 <= k < rest.len() && #[trigger] rest[k].id == id;
            assert(notes[k + 1].id == id);
        }
    } else if notes.len() > 0 {
        assert(notes[0].id == id);
    }
}

/// The note at `i` carries `id` and no note before it does, so `i` is the
/// first position of `id`.
pub proof fn lemma_first_index_unique(notes: Seq<NoteView>, id: NoteId, i: int)
    requires
        0 <= i < notes.len(),
        notes[i].id == id,
        forall|j: int| 0 <= j < i ==> notes[j].id != id,
    ensures
        first_index_of(notes, id) == Some(i),
{
    lemma_first_index_of(notes, id);
}

/// `leading_pinned` counts the pinned notes before the first unpinned one.
pub proof fn lemma_leading_pinned(notes: Seq<NoteView>)
    ensures
        leading_pinned(notes) <= notes.len(),
        forall|j: int| 0 <= j < leading_pinned(notes) ==> #[trigger] notes[j].pinned,
        leading_pinned(notes) < notes.len() ==> !notes[leading_pinned(notes) as int].pinned,
    decreases notes.len(),
{
    if notes.len() > 0 && notes[0].pinned {
        let rest = notes.drop_first();
        lemma_leading_pinned(rest);
        assert forall|j: int| 0 <= j < leading_pinned(notes) implies #[trigger] notes[j].pinned by {
            if j > 0 {
                assert(notes[j] == rest[j - 1]);
            }
        }
        if leading_pinned(notes) < notes.len() {
            assert(notes[leading_pinned(notes) as int] == rest[leading_pinned(rest) as int]);
        }
    }
}

/// A count `k` of pinned notes followed by an unpinned one (or the end) is
/// the number of leading pinned notes.
pub proof fn lemma_leading_pinned_unique(notes: Seq<NoteView>, k: int)
    requires
        0 <= k <= notes.len(),
        forall|j: int| 0 <= j < k ==> #[trigger] notes[j].pinned,
        k < notes.len() ==> !notes[k].pinned,
    ensures
        leading_pinned(notes) == k,
{
    lemma_leading_pinned(notes);
    let p = leading_pinned(notes) as int;
    if p < k {
        assert(notes[p].pinned);
    } else if k < p {
        assert(notes[k].pinned);
    }
}

impl View for AppState {
    type V = AppStateView;

    open spec fn view(&self) -> AppStateView {
        self.model()
    }
}

impl AppState {
    pub closed spec fn model(&self) -> AppStateView {
        AppStateView {
            notes: notes_view(self.notes@),
            deck: self.deck,
            keep_open: self.keep_open,
            pending_note: self.pending_note,
        }
    }

    /// A dormant deck over `notes`, with nothing pending.
    pub fn new(notes: Vec<Note>) -> (state: Self)
        ensures
            state@ == (AppStateView {
                notes: notes_view(notes@),
                deck: DeckState::Dormant,
                keep_open: false,
                pending_note: None,
            }),
    {
        AppState { notes, deck: DeckState::Dormant, keep_open: false, pending_note: None }
    }

    pub fn notes(&self) -> (notes: &[Note])
        ensures
            notes_view(notes@) == self@.notes,
    {
        self.notes.as_slice()
    }

    /// The position of the first note with identifier `id`.
    fn position(&self, id: NoteId) -> (index: Option<usize>)
        ensures
            match index {
                Some(i) => first_index_of(self@.notes, id) == Some(i as int),
                None => first_index_of(self@.notes, id) is None,
            },
    {
        let ghost notes = self@.notes;
        let mut i: usize = 0;
        while i < self.notes.len()
            invariant
                i <= self.notes.len(),
                notes == notes_view(self.notes@),
                forall|j: int| 0 <= j < i ==> notes[j].id != id,
            decreases self.notes.len() - i,
        {
            if self.notes[i].id == id {
                proof {
                    lemma_first_index_unique(notes, id, i as int);
                }
                return Some(i);
            }
            i = i + 1;
        }
        proof {
            lemma_first_index_of(notes, id);
        }
        None
    }

    /// The first note with identifier `id`.
    pub fn note(&self, id: NoteId) -> (note: Option<&Note>)
        ensures
            match first_index_of(self@.notes, id) {
                Some(i) => note matches Some(n) && n@ == self@.notes[i],
                None => note is None,
            },
    {
        match self.position(id) {
            Some(i) => {
                proof {
                    lemma_first_index_of(self@.notes, id);
                }
                Some(&self.notes[i])
            },
            None => None,
        }
    }

    /// Puts a new set of notes in the deck, unless a note is open or an edit
    /// is unsaved; the deck then becomes dormant.
    pub fn replace_notes(&mut self, notes: Vec<Note>) -> (replaced: bool)
        ensures
            replaced == !(old(self)@.deck is Open || old(self)@.pending_note is Some),
            replaced ==> final(self)@ == (AppStateView {
                notes: notes_view(notes@),
                deck: DeckState::Dormant,
                keep_open: false,
                ..old(self)@
            }),
            !replaced ==> final(self)@ == old(self)@,
    {
        let open = match self.deck {
            DeckState::Open(_) => true,
            _ => false,
        };
        if open || self.pending_note.is_some() {
            return false;
        }
        self.notes = notes;
        self.deck = DeckState::Dormant;
        self.keep_open = false;
        true
    }

    /// The note whose edit is unsaved, if it is in the deck.
    pub fn pending_note(&self) -> (note: Option<&Note>)
        ensures
            match self@.pending_note {
                Some(id) => match first_index_of(self@.notes, id) {
                    Some(i) => note matches Some(n) && n@ == self@.notes[i],
                    None => note is None,
                },
                None => note is None,
            },
    {
        match self.pending_note {
            Some(id) => self.note(id),
            None => None,
        }
    }

    /// Records that the note `id` was saved: it is no longer pending.
    pub fn note_saved(&mut self, id: NoteId)
        ensures
            final(self)@ == (AppStateView {
                pending_note: if old(self)@.pending_note == Some(id) {
                    None
                } else {
                    old(self)@.pending_note
                },
                ..old(self)@
            }),
    {
        if self.pending_note == Some(id) {
            self.pending_note = None;
        }
    }

    pub fn deck(&self) -> (deck: DeckState)
        ensures
            deck == self@.deck,
    {
        self.deck
    }

    pub fn keep_open(&self) -> (keep_open: bool)
        ensures
            keep_open == self@.keep_open,
    {
        self.keep_open
    }

    /// Applies a user action; `None` means the action was refused and
    /// nothing changed.
    pub fn dispatch(&mut self, action: Action) -> (event: Option<Event>)
        ensures
            final(self)@ == dispatch_spec(old(self)@, action@).0,
            event == dispatch_spec(old(self)@, action@).1,
    {
        match action {
            Action::ShowTabs => {
                if let DeckState::Open(_) = self.deck {
                    return None;
                }
                self.deck = DeckState::Tabs;
                Some(Event::Deck(self.deck))
            },
            Action::AddNote(note) => {
                if self.position(note.id).is_some() {
                    return None;
                }
                let id = note.id;
                self.insert_recent_note(note);
                Some(Event::NoteAdded(id))
            },
            Action::OpenNote(id) => {
                if self.pending_note.is_some() {
                    return None;
                }
                if self.position(id).is_none() {
                    return None;
                }
                self.deck = DeckState::Open(id);
                self.keep_open = false;
                Some(Event::Deck(self.deck))
            },
            Action::UpdateOpenNoteTitle(title) => self.edit_open_note(title, true),
            Action::UpdateOpenNoteBody(body) => self.edit_open_note(body, false),
            Action::ArchiveOpenNote => self.remove_open_note(false),
            Action::DeleteOpenNote => self.remove_open_note(true),
            Action::SetKeepOpen(keep_open) => {
                let open = match self.deck {
                    DeckState::Open(_) => true,
                    _ => false,
                };
                if !open || self.keep_open == keep_open {
                    return None;
                }
                self.keep_open = keep_open;
                Some(Event::KeepOpen(keep_open))
            },
            Action::CollapseDeck => {
                if self.pending_note.is_some() {
                    return None;
                }
                self.deck = DeckState::Dormant;
                self.keep_open = false;
                Some(Event::Deck(self.deck))
            },
        }
    }

    /// Replaces the open note's title (`edits_title`) or body with `text`
    /// and moves the note to its recent position.
    fn edit_open_note(&mut self, text: String, edits_title: bool) -> (event: Option<Event>)
        ensures
            final(self)@ == edit_open_note(old(self)@, text@, edits_title).0,
            event == edit_open_note(old(self)@, text@, edits_title).1,
    {
        let id = match self.deck {
            DeckState::Open(id) => id,
            _ => {
                return None;
            },
        };
        let index = match self.position(id) {
            Some(index) => index,
            None => {
                return None;
            },
        };
        proof {
            lemma_first_index_of(self@.notes, id);
        }
        let unchanged = if edits_title {
            self.notes[index].title == text
        } else {
            self.notes[index].body == text
        };
        if unchanged {
            return None;
        }
        let ghost before = self@.notes;
        let mut note = self.notes.remove(index);
        assert(notes_view(self.notes@) =~= before.remove(index as int));
        if edits_title {
            note.title = text;
        } else {
            note.body = text;
        }
        assert(note@ =~= edited_note(before[index as int], text@, edits_title));
        self.insert_recent_note(note);
        self.pending_note = Some(id);
        Some(Event::NoteEdited(id))
    }

    /// Inserts `note` at its recent position.
    fn insert_recent_note(&mut self, note: Note)
        ensures
            final(self)@ == (AppStateView {
                notes: insert_recent(old(self)@.notes, note@),
                ..old(self)@
            }),
    {
        let ghost notes = self@.notes;
        let index: usize = if note.pinned {
            0
        } else {
            let mut count: usize = 0;
            while count < self.notes.len() && self.notes[count].pinned
                invariant
                    count <= self.notes.len(),
                    notes == notes_view(self.notes@),
                    forall|j: int| 0 <= j < count ==> #[trigger] notes[j].pinned,
                decreases self.notes.len() - count,
            {
                count = count + 1;
            }
            proof {
                lemma_leading_pinned_unique(notes, count as int);
            }
            count
        };
        proof {
            lemma_leading_pinned(notes);
        }
        let ghost nv = note@;
        self.notes.insert(index, note);
        assert(notes_view(self.notes@) =~= notes.insert(index as int, nv));
    }

    /// Archives (`delete` false) or deletes the open note.
    fn remove_open_note(&mut self, delete: bool) -> (event: Option<Event>)
        ensures
            final(self)@ == remove_open(old(self)@, delete).0,
            event == remove_open(old(self)@, delete).1,
    {
        if self.pending_note.is_some() {
            return None;
        }
        let id = match self.deck {
            DeckState::Open(id) => id,
            _ => {
                return None;
            },
        };
        let index = match self.position(id) {
            Some(index) => index,
            None => {
                return None;
            },
        };
        proof {
            lemma_first_index_of(self@.notes, id);
        }
        let ghost before = self@.notes;
        self.notes.remove(index);
        assert(notes_view(self.notes@) =~= before.remove(index as int));
        self.deck = DeckState::Dormant;
        self.keep_open = false;
        if delete {
            Some(Event::NoteDeleted(id))
        } else {
            Some(Event::NoteArchived(id))
        }
    }
}

} // verus!
