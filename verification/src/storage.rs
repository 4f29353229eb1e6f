//! The rules of the note store that do not touch the database: how notes
//! are encoded in rows, which statements the store runs, and how it reads
//! their outcome.
use vstd::prelude::*;

use crate::app::{Note, NoteColor, NoteId, NoteView};

verus! {

/// The schema version this store creates and understands.
pub const SCHEMA_VERSION: i64 = 1;

#[derive(Clone, Copy, Debug, PartialEq, Eq, Structural)]
pub enum NoteCollection {
    Active,
    Archived,
}

#[derive(Clone, Copy, Debug, PartialEq, Eq, Structural)]
pub enum NoteSort {
    Recent,
    Title,
}

/// The ways a stored record can be refused.
#[derive(Debug)]
pub enum RecordError {
    /// A row names a color this program does not know.
    InvalidColor(String),
    /// A row's identifier is negative.
    InvalidNoteId(i64),
    /// An identifier does not fit in a database integer.
    NoteIdOutOfRange(u64),
    /// No note that the statement may change has this identifier.
    MissingNote(NoteId),
    /// The database was written by a newer schema.
    UnsupportedSchema(i64),
}

/// Whether two texts are equal.
#[verifier::external_body]
fn same_text(a: &str, b: &str) -> (equal: bool)
    ensures
        equal == (a@ == b@),
{
    a == b
}

/// The name under which a color is stored.
pub open spec fn color_text(color: NoteColor) -> Seq<char> {
    match color {
        NoteColor::Yellow => "yellow"@,
        NoteColor::Blue => "blue"@,
        NoteColor::Purple => "purple"@,
        NoteColor::Green => "green"@,
    }
}

pub fn color_name(color: NoteColor) -> (name: &'static str)
    ensures
        name@ == color_text(color),
{
    match color {
        NoteColor::Yellow => "yellow",
        NoteColor::Blue => "blue",
        NoteColor::Purple => "purple",
        NoteColor::Green => "green",
    }
}

proof fn lemma_color_texts_differ()
    ensures
        forall|a: NoteColor, b: NoteColor| #[trigger] color_text(a) == #[trigger] color_text(b) ==> a == b,
{
    reveal_strlit("yellow");
    reveal_strlit("blue");
    reveal_strlit("purple");
    reveal_strlit("green");
    assert("yellow"@[0] != "blue"@[0]);
    assert("yellow"@[0] != "purple"@[0]);
    assert("yellow"@[0] != "green"@[0]);
    assert("blue"@[0] != "purple"@[0]);
    assert("blue"@[0] != "green"@[0]);
    assert("purple"@[0] != "green"@[0]);
}

/// The color stored under `text`, if any.
pub open spec fn color_of_text(text: Seq<char>) -> Option<NoteColor> {
    if exists|c: NoteColor| color_text(c) == text {
        Some(choose|c: NoteColor| color_text(c) == text)
    } else {
        None
    }
}

proof fn lemma_color_of_text(text: Seq<char>)
    ensures
        forall|c: NoteColor| #[trigger] color_text(c) == text ==> color_of_text(text) == Some(c),
{
    lemma_color_texts_differ();
    assert forall|c: NoteColor| #[trigger] color_text(c) == text implies color_of_text(text) == Some(c) by {
        let d = choose|d: NoteColor| color_text(d) == text;
        assert(color_text(d) == color_text(c));
    }
}

/// Reads a stored color name; an unknown name is an error that carries it.
pub fn parse_color(color: &str) -> (parsed: Result<NoteColor, RecordError>)
    ensures
        match parsed {
            Ok(c) => color_of_text(color@) == Some(c) && color_text(c) == color@,
            Err(e) => e matches RecordError::InvalidColor(text) && text@ == color@ && color_of_text(
                color@,
            ) is None,
        },
        parsed is Ok <==> color_of_text(color@) is Some,
{
    proof {
        lemma_color_of_text(color@);
    }
    if same_text(color, "yellow") {
        assert(color_text(NoteColor::Yellow) == color@);
        Ok(NoteColor::Yellow)
    } else if same_text(color, "blue") {
        assert(color_text(NoteColor::Blue) == color@);
        Ok(NoteColor::Blue)
    } else if same_text(color, "purple") {
        assert(color_text(NoteColor::Purple) == color@);
        Ok(NoteColor::Purple)
    } else if same_text(color, "green") {
        assert(color_text(NoteColor::Green) == color@);
        Ok(NoteColor::Green)
    } else {
        proof {
            if exists|c: NoteColor| color_text(c) == color@ {
                let c = choose|c: NoteColor| color_text(c) == color@;
                assert(color_text(c) == color@);
            }
        }
        Err(RecordError::InvalidColor(color.to_owned()))
    }
}

/// Reading back a stored color name gives the color that was stored.
pub proof fn law_color_name_round_trip(color: NoteColor)
    ensures
        color_of_text(color_text(color)) == Some(color),
{
    lemma_color_of_text(color_text(color));
}

/// A note written as a row reads back as the same note: its identifier
/// fits and comes back unchanged, and its color name reads back as its color.
pub proof fn law_note_row_round_trip(note: NoteView)
    requires
        note.id@ <= i64::MAX,
    ensures
        note.id@ as i64 >= 0,
        (note.id@ as i64) as u64 == note.id@,
        NoteId::spec_new((note.id@ as i64) as u64) == note.id,
        color_of_text(color_text(note.color)) == Some(note.color),
{
    lemma_color_of_text(color_text(note.color));
    NoteId::lemma_new_carries_value(note.id@);
    crate::app::lemma_note_id_view_injective(NoteId::spec_new(note.id@), note.id);
}

/// A note identifier as a database integer; identifiers above `i64::MAX`
/// do not fit.
pub fn note_id_to_i64(id: NoteId) -> (key: Result<i64, RecordError>)
    ensures
        id@ <= i64::MAX ==> key == Ok::<i64, RecordError>(id@ as i64),
        id@ > i64::MAX ==> (key matches Err(RecordError::NoteIdOutOfRange(v)) && v == id@),
{
    let value: u64 = id.value();
    if value <= i64::MAX as u64 {
        Ok(value as i64)
    } else {
        Err(RecordError::NoteIdOutOfRange(value))
    }
}

/// A note identifier read from the database; negative integers are not
/// identifiers.
pub fn note_id_from_i64(key: i64) -> (id: Result<NoteId, RecordError>)
    ensures
        key >= 0 ==> id == Ok::<NoteId, RecordError>(NoteId::spec_new(key as u64)),
        key >= 0 ==> (id matches Ok(i) && i@ == key as u64),
        key < 0 ==> (id matches Err(RecordError::InvalidNoteId(v)) && v == key),
{
    if key < 0 {
        Err(RecordError::InvalidNoteId(key))
    } else {
        Ok(NoteId::new(key as u64))
    }
}

/// A database row: identifier, title, body, color name, pinned flag.
pub type NoteRow = (i64, String, String, String, bool);

/// Builds a note from a stored row; a negative identifier or an unknown
/// color is refused, in that order.
pub fn stored_note_from_row(row: NoteRow) -> (note: Result<Note, RecordError>)
    ensures
        row.0 < 0 ==> (note matches Err(RecordError::InvalidNoteId(v)) && v == row.0),
        row.0 >= 0 && color_of_text(row.3@) is None ==> (note matches Err(
            RecordError::InvalidColor(text),
        ) && text@ == row.3@),
        row.0 >= 0 && color_of_text(row.3@) is Some ==> (note matches Ok(n) && n@ == (NoteView {
            id: n.id,
            title: row.1@,
            body: row.2@,
            color: color_of_text(row.3@)->0,
            pinned: row.4,
        }) && n.id@ == row.0 as u64),
{
    let (key, title, body, color, pinned) = row;
    let id = match note_id_from_i64(key) {
        Ok(id) => id,
        Err(e) => {
            return Err(e);
        },
    };
    let color = match parse_color(color.as_str()) {
        Ok(c) => c,
        Err(e) => {
            return Err(e);
        },
    };
    proof {
        lemma_color_texts_differ();
    }
    Ok(Note { id, title, body, color, pinned })
}

/// A count as a database integer: counts beyond `i64::MAX` become `i64::MAX`.
pub fn saturating_i64(count: usize) -> (value: i64)
    ensures
        count <= i64::MAX ==> value == count,
        count > i64::MAX ==> value == i64::MAX,
{
    if count as u64 <= i64::MAX as u64 {
        count as i64
    } else {
        i64::MAX
    }
}

/// The outcome of a statement that must change one note: changing none
/// means that no such note was there.
pub fn require_updated(updated: usize, id: NoteId) -> (outcome: Result<(), RecordError>)
    ensures
        updated != 0 ==> outcome is Ok,
        updated == 0 ==> (outcome matches Err(RecordError::MissingNote(m)) && m == id),
{
    if updated == 0 {
        Err(RecordError::MissingNote(id))
    } else {
        Ok(())
    }
}

/// What opening a database of schema `version` calls for: `Ok(true)` to
/// create the schema, `Ok(false)` to use it as it is, and an error for a
/// schema newer than this program's.
pub fn schema_plan(version: i64) -> (plan: Result<bool, RecordError>)
    ensures
        version > SCHEMA_VERSION ==> (plan matches Err(RecordError::UnsupportedSchema(v)) && v
            == version),
        version <= SCHEMA_VERSION ==> (plan matches Ok(create) && create == (version == 0)),
{
    if version > SCHEMA_VERSION {
        return Err(RecordError::UnsupportedSchema(version));
    }
    Ok(version == 0)
}

/// Which notes a search looks at: active ones, or archived ones; deleted
/// notes never.
pub open spec fn collection_filter(collection: NoteCollection) -> Seq<char> {
    match collection {
        NoteCollection::Active => "archived_at IS NULL"@,
        NoteCollection::Archived => "archived_at IS NOT NULL"@,
    }
}

/// The order of search results. Active notes keep pinned notes first;
/// ties fall back to the most recent edit, then to the newest note.
pub open spec fn search_order(collection: NoteCollection, sort: NoteSort) -> Seq<char> {
    match (collection, sort) {
        (NoteCollection::Active, NoteSort::Recent) => "pinned DESC, updated_at DESC, sort_order ASC, id DESC"@,
        (NoteCollection::Active, NoteSort::Title) => "pinned DESC, title COLLATE NOCASE ASC, updated_at DESC, id DESC"@,
        (NoteCollection::Archived, NoteSort::Recent) => "updated_at DESC, sort_order ASC, id DESC"@,
        (NoteCollection::Archived, NoteSort::Title) => "title COLLATE NOCASE ASC, updated_at DESC, id DESC"@,
    }
}

pub open spec fn search_head() -> Seq<char> {
    "SELECT id, title, body, color, pinned\n             FROM notes\n             WHERE "@
}

/// The search matches the query, ignoring case, in the title or the body.
pub open spec fn search_condition() -> Seq<char> {
    "\n               AND deleted_at IS NULL\n               AND (instr(lower(title), lower(?1)) > 0\n                    OR instr(lower(body), lower(?1)) > 0)\n             ORDER BY "@
}

/// The statement that searches `collection` for the query bound to `?1`,
/// ordered by `sort`.
pub fn search_statement(collection: NoteCollection, sort: NoteSort) -> (sql: String)
    ensures
        sql@ == search_head() + collection_filter(collection) + search_condition() + search_order(
            collection,
            sort,
        ),
{
    let filter = match collection {
        NoteCollection::Active => "archived_at IS NULL",
        NoteCollection::Archived => "archived_at IS NOT NULL",
    };
    let order = match (collection, sort) {
        (NoteCollection::Active, NoteSort::Recent) => "pinned DESC, updated_at DESC, sort_order ASC, id DESC",
        (NoteCollection::Active, NoteSort::Title) => "pinned DESC, title COLLATE NOCASE ASC, updated_at DESC, id DESC",
        (NoteCollection::Archived, NoteSort::Recent) => "updated_at DESC, sort_order ASC, id DESC",
        (NoteCollection::Archived, NoteSort::Title) => "title COLLATE NOCASE ASC, updated_at DESC, id DESC",
    };
    let mut sql = String::from_str(
        "SELECT id, title, body, color, pinned\n             FROM notes\n             WHERE ",
    );
    sql.append(filter);
    sql.append(
        "\n               AND deleted_at IS NULL\n               AND (instr(lower(title), lower(?1)) > 0\n                    OR instr(lower(body), lower(?1)) > 0)\n             ORDER BY ",
    );
    sql.append(order);
    sql
}

/// The statement that marks note `?2` archived or (`delete`) deleted at
/// time `?1`. A deleted note stays deleted; only an active note is archived.
pub open spec fn removal_text(delete: bool) -> Seq<char> {
    if delete {
        "UPDATE notes SET deleted_at = ?1, updated_at = ?1\n             WHERE id = ?2 AND deleted_at IS NULL"@
    } else {
        "UPDATE notes SET archived_at = ?1, updated_at = ?1\n             WHERE id = ?2 AND archived_at IS NULL AND deleted_at IS NULL"@
    }
}

pub fn removal_statement(delete: bool) -> (sql: &'static str)
    ensures
        sql@ == removal_text(delete),
{
    if delete {
        "UPDATE notes SET deleted_at = ?1, updated_at = ?1\n             WHERE id = ?2 AND deleted_at IS NULL"
    } else {
        "UPDATE notes SET archived_at = ?1, updated_at = ?1\n             WHERE id = ?2 AND archived_at IS NULL AND deleted_at IS NULL"
    }
}

/// `part` occurs in `text`.
pub open spec fn contains_text(text: Seq<char>, part: Seq<char>) -> bool {
    exists|i: int| 0 <= i && i + part.len() <= text.len() && #[trigger] text.subrange(i, i + part.len()) == part
}

/// `text` ends with `part`.
pub open spec fn ends_with_text(text: Seq<char>, part: Seq<char>) -> bool {
    part.len() <= text.len() && text.subrange(text.len() - part.len(), text.len() as int) == part
}

proof fn lemma_contains_in_middle(x: Seq<char>, y: Seq<char>, z: Seq<char>, part: Seq<char>, at: int)
    requires
        0 <= at,
        at + part.len() <= y.len(),
        y.subrange(at, at + part.len()) == part,
    ensures
        contains_text(x + y + z, part),
{
    let whole = x + y + z;
    let i = x.len() + at;
    assert(whole.subrange(i, i + part.len()) =~= part) by {
        assert forall|k: int| 0 <= k < part.len() implies whole.subrange(i, i + part.len())[k] == part[k] by {
            assert(whole[i + k] == y[at + k]);
            assert(y.subrange(at, at + part.len())[k] == y[at + k]);
        }
    }
}

/// A search looks only at notes that are not deleted, in the chosen
/// collection (active: not archived; archived: archived), and matches the
/// query, ignoring case, in the title or in the body.
pub proof fn law_search_matches_title_or_body(collection: NoteCollection, sort: NoteSort)
    ensures
        ({
            let sql = search_head() + collection_filter(collection) + search_condition()
                + search_order(collection, sort);
            &&& contains_text(sql, "AND deleted_at IS NULL"@)
            &&& contains_text(sql, "instr(lower(title), lower(?1)) > 0"@)
            &&& contains_text(sql, "OR instr(lower(body), lower(?1)) > 0)"@)
            &&& collection == NoteCollection::Active ==> contains_text(sql, "WHERE archived_at IS NULL"@)
            &&& collection == NoteCollection::Archived ==> contains_text(sql, "WHERE archived_at IS NOT NULL"@)
        }),
{
    reveal_strlit("\n               AND deleted_at IS NULL\n               AND (instr(lower(title), lower(?1)) > 0\n                    OR instr(lower(body), lower(?1)) > 0)\n             ORDER BY ");
    reveal_strlit("AND deleted_at IS NULL");
    reveal_strlit("instr(lower(title), lower(?1)) > 0");
    reveal_strlit("OR instr(lower(body), lower(?1)) > 0)");
    let h = search_head();
    let f = collection_filter(collection);
    let c = search_condition();
    let o = search_order(collection, sort);
    assert(c.subrange(16int, 16int + 22) =~= "AND deleted_at IS NULL"@);
    assert(c.subrange(59int, 59int + 34) =~= "instr(lower(title), lower(?1)) > 0"@);
    assert(c.subrange(114int, 114int + 37) =~= "OR instr(lower(body), lower(?1)) > 0)"@);
    lemma_contains_in_middle(h + f, c, o, "AND deleted_at IS NULL"@, 16);
    lemma_contains_in_middle(h + f, c, o, "instr(lower(title), lower(?1)) > 0"@, 59);
    lemma_contains_in_middle(h + f, c, o, "OR instr(lower(body), lower(?1)) > 0)"@, 114);
    assert(h + f + c + o == (h + f) + c + o);
    reveal_strlit("SELECT id, title, body, color, pinned\n             FROM notes\n             WHERE ");
    reveal_strlit("WHERE ");
    assert(h.subrange(75int, 81int) =~= "WHERE "@);
    if collection == NoteCollection::Active {
        reveal_strlit("archived_at IS NULL");
        reveal_strlit("WHERE archived_at IS NULL");
        let part = "WHERE archived_at IS NULL"@;
        let whole = h + f + c + o;
        assert(whole.subrange(75int, 75int + part.len()) =~= part) by {
            assert forall|k: int| 0 <= k < part.len() implies whole.subrange(75int, 75int + part.len())[k] == part[k] by {
                if k < 6 {
                    assert(whole[75 + k] == h[75 + k]);
                } else {
                    assert(whole[75 + k] == f[k - 6]);
                }
            }
        }
    } else {
        reveal_strlit("archived_at IS NOT NULL");
        reveal_strlit("WHERE archived_at IS NOT NULL");
        let part = "WHERE archived_at IS NOT NULL"@;
        let whole = h + f + c + o;
        assert(whole.subrange(75int, 75int + part.len()) =~= part) by {
            assert forall|k: int| 0 <= k < part.len() implies whole.subrange(75int, 75int + part.len())[k] == part[k] by {
                if k < 6 {
                    assert(whole[75 + k] == h[75 + k]);
                } else {
                    assert(whole[75 + k] == f[k - 6]);
                }
            }
        }
    }
}

/// Deleting changes every note with the identifier that is not deleted yet,
/// archived or not: the statement's condition is only the identifier and
/// "not deleted". Archiving changes only a note that is neither archived nor
/// deleted. Both record the time in the matching column and as the edit time.
pub proof fn law_removal_conditions()
    ensures
        ends_with_text(removal_text(true), "WHERE id = ?2 AND deleted_at IS NULL"@),
        contains_text(removal_text(true), "SET deleted_at = ?1, updated_at = ?1"@),
        ends_with_text(
            removal_text(false),
            "WHERE id = ?2 AND archived_at IS NULL AND deleted_at IS NULL"@,
        ),
        contains_text(removal_text(false), "SET archived_at = ?1, updated_at = ?1"@),
{
    reveal_strlit("UPDATE notes SET deleted_at = ?1, updated_at = ?1\n             WHERE id = ?2 AND deleted_at IS NULL");
    reveal_strlit("UPDATE notes SET archived_at = ?1, updated_at = ?1\n             WHERE id = ?2 AND archived_at IS NULL AND deleted_at IS NULL");
    reveal_strlit("WHERE id = ?2 AND deleted_at IS NULL");
    reveal_strlit("SET deleted_at = ?1, updated_at = ?1");
    reveal_strlit("WHERE id = ?2 AND archived_at IS NULL AND deleted_at IS NULL");
    reveal_strlit("SET archived_at = ?1, updated_at = ?1");
    let d = removal_text(true);
    let a = removal_text(false);
    assert(d.subrange(63int, 99int) =~= "WHERE id = ?2 AND deleted_at IS NULL"@);
    assert(d.subrange(13int, 13int + 36) =~= "SET deleted_at = ?1, updated_at = ?1"@);
    assert(a.subrange(64int, 124int) =~= "WHERE id = ?2 AND archived_at IS NULL AND deleted_at IS NULL"@);
    assert(a.subrange(13int, 13int + 37) =~= "SET archived_at = ?1, updated_at = ?1"@);
}

/// Each color is stored under its own lower-case English name.
pub proof fn law_colors_are_stored_by_name()
    ensures
        color_text(NoteColor::Yellow) == "yellow"@,
        color_text(NoteColor::Blue) == "blue"@,
        color_text(NoteColor::Purple) == "purple"@,
        color_text(NoteColor::Green) == "green"@,
        color_of_text("yellow"@) == Some(NoteColor::Yellow),
        color_of_text("blue"@) == Some(NoteColor::Blue),
        color_of_text("purple"@) == Some(NoteColor::Purple),
        color_of_text("green"@) == Some(NoteColor::Green),
{
    assert(color_text(NoteColor::Yellow) == "yellow"@);
    assert(color_text(NoteColor::Blue) == "blue"@);
    assert(color_text(NoteColor::Purple) == "purple"@);
    assert(color_text(NoteColor::Green) == "green"@);
    lemma_color_of_text("yellow"@);
    lemma_color_of_text("blue"@);
    lemma_color_of_text("purple"@);
    lemma_color_of_text("green"@);
}

/// `text` starts with `part`.
pub open spec fn starts_with_text(text: Seq<char>, part: Seq<char>) -> bool {
    part.len() <= text.len() && text.subrange(0, part.len() as int) == part
}

/// Search results: active notes list pinned notes first and archived notes
/// do not; "recent" orders by the last edit, newest first; "title" orders
/// by title, ignoring case, from A to Z.
pub proof fn law_search_order(collection: NoteCollection, sort: NoteSort)
    ensures
        collection == NoteCollection::Active ==> starts_with_text(
            search_order(collection, sort),
            "pinned DESC, "@,
        ),
        collection == NoteCollection::Archived ==> !starts_with_text(
            search_order(collection, sort),
            "pinned"@,
        ),
        sort == NoteSort::Recent ==> contains_text(search_order(collection, sort), "updated_at DESC, sort_order ASC, id DESC"@),
        sort == NoteSort::Title ==> contains_text(search_order(collection, sort), "title COLLATE NOCASE ASC, updated_at DESC, id DESC"@),
{
    reveal_strlit("pinned DESC, updated_at DESC, sort_order ASC, id DESC");
    reveal_strlit("pinned DESC, title COLLATE NOCASE ASC, updated_at DESC, id DESC");
    reveal_strlit("updated_at DESC, sort_order ASC, id DESC");
    reveal_strlit("title COLLATE NOCASE ASC, updated_at DESC, id DESC");
    reveal_strlit("pinned DESC, ");
    reveal_strlit("pinned");
    let o = search_order(collection, sort);
    match (collection, sort) {
        (NoteCollection::Active, NoteSort::Recent) => {
            assert(o.subrange(0int, 13int) =~= "pinned DESC, "@);
            assert(o.subrange(13int, 13int + "updated_at DESC, sort_order ASC, id DESC"@.len()) =~= "updated_at DESC, sort_order ASC, id DESC"@);
        },
        (NoteCollection::Active, NoteSort::Title) => {
            assert(o.subrange(0int, 13int) =~= "pinned DESC, "@);
            assert(o.subrange(13int, 13int + "title COLLATE NOCASE ASC, updated_at DESC, id DESC"@.len()) =~= "title COLLATE NOCASE ASC, updated_at DESC, id DESC"@);
        },
        (NoteCollection::Archived, NoteSort::Recent) => {
            assert(o.subrange(0int, 0int + "updated_at DESC, sort_order ASC, id DESC"@.len()) =~= "updated_at DESC, sort_order ASC, id DESC"@);
            assert(o.subrange(0int, 6int)[0] != "pinned"@[0]);
        },
        (NoteCollection::Archived, NoteSort::Title) => {
            assert(o.subrange(0int, 0int + "title COLLATE NOCASE ASC, updated_at DESC, id DESC"@.len()) =~= "title COLLATE NOCASE ASC, updated_at DESC, id DESC"@);
            assert(o.subrange(0int, 6int)[0] != "pinned"@[0]);
        },
    }
}

} // verus!
