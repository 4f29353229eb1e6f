use stickies::app::{NoteColor, NoteId};
use stickies::clock::{timestamp_from_millis, unix_timestamp_millis};
use stickies::storage::{
    color_name, note_id_to_i64, parse_color, removal_statement, require_updated, saturating_i64,
    schema_plan, search_statement, stored_note_from_row, NoteCollection, NoteSort, RecordError,
    SCHEMA_VERSION,
};

#[test]
fn every_color_name_reads_back_as_its_color() {
    for color in [
        NoteColor::Yellow,
        NoteColor::Blue,
        NoteColor::Purple,
        NoteColor::Green,
    ] {
        assert_eq!(parse_color(color_name(color)).unwrap(), color);
    }
    assert_eq!(color_name(NoteColor::Purple), "purple");
}

#[test]
fn an_unknown_color_is_refused_with_its_name() {
    assert!(matches!(
        parse_color("Yellow"),
        Err(RecordError::InvalidColor(name)) if name == "Yellow"
    ));
    assert!(matches!(parse_color(""), Err(RecordError::InvalidColor(name)) if name.is_empty()));
}

#[test]
fn note_ids_fit_a_database_integer_up_to_its_maximum() {
    assert_eq!(note_id_to_i64(NoteId::new(7)).unwrap(), 7);
    assert_eq!(
        note_id_to_i64(NoteId::new(i64::MAX as u64)).unwrap(),
        i64::MAX
    );
    assert!(matches!(
        note_id_to_i64(NoteId::new(i64::MAX as u64 + 1)),
        Err(RecordError::NoteIdOutOfRange(v)) if v == i64::MAX as u64 + 1
    ));
}

#[test]
fn a_row_becomes_a_note() {
    let note = stored_note_from_row((
        5,
        "Title".to_owned(),
        "Body".to_owned(),
        "green".to_owned(),
        true,
    ))
    .unwrap();
    assert_eq!(note.id, NoteId::new(5));
    assert_eq!(note.title, "Title");
    assert_eq!(note.body, "Body");
    assert_eq!(note.color, NoteColor::Green);
    assert!(note.pinned);
}

#[test]
fn a_row_with_a_negative_id_or_unknown_color_is_refused() {
    assert!(matches!(
        stored_note_from_row((-3, String::new(), String::new(), "teal".to_owned(), false)),
        Err(RecordError::InvalidNoteId(-3))
    ));
    assert!(matches!(
        stored_note_from_row((3, String::new(), String::new(), "teal".to_owned(), false)),
        Err(RecordError::InvalidColor(name)) if name == "teal"
    ));
}

#[test]
fn counts_saturate_at_the_largest_database_integer() {
    assert_eq!(saturating_i64(5), 5);
    assert_eq!(saturating_i64(0), 0);
    assert_eq!(saturating_i64(usize::MAX), i64::MAX);
}

#[test]
fn a_statement_that_changed_nothing_means_the_note_is_missing() {
    assert!(require_updated(1, NoteId::new(4)).is_ok());
    assert!(matches!(
        require_updated(0, NoteId::new(4)),
        Err(RecordError::MissingNote(id)) if id == NoteId::new(4)
    ));
}

#[test]
fn schema_versions_decide_migration() {
    assert!(schema_plan(0).unwrap());
    assert!(!schema_plan(SCHEMA_VERSION).unwrap());
    assert!(matches!(
        schema_plan(SCHEMA_VERSION + 1),
        Err(RecordError::UnsupportedSchema(2))
    ));
}

#[test]
fn searches_filter_the_collection_and_order_the_results() {
    let active = search_statement(NoteCollection::Active, NoteSort::Recent);
    assert!(active.starts_with("SELECT id, title, body, color, pinned"));
    assert!(active.contains("WHERE archived_at IS NULL\n"));
    assert!(active.ends_with("ORDER BY pinned DESC, updated_at DESC, sort_order ASC, id DESC"));
    let archived = search_statement(NoteCollection::Archived, NoteSort::Title);
    assert!(archived.contains("WHERE archived_at IS NOT NULL\n"));
    assert!(archived.contains("AND deleted_at IS NULL"));
    assert!(archived.ends_with("ORDER BY title COLLATE NOCASE ASC, updated_at DESC, id DESC"));
    let titled = search_statement(NoteCollection::Active, NoteSort::Title);
    assert!(titled.ends_with("ORDER BY pinned DESC, title COLLATE NOCASE ASC, updated_at DESC, id DESC"));
    let recent_archive = search_statement(NoteCollection::Archived, NoteSort::Recent);
    assert!(recent_archive.ends_with("ORDER BY updated_at DESC, sort_order ASC, id DESC"));
}

#[test]
fn deleting_and_archiving_use_their_own_statements() {
    assert!(removal_statement(true).starts_with("UPDATE notes SET deleted_at = ?1"));
    assert!(removal_statement(false).starts_with("UPDATE notes SET archived_at = ?1"));
    assert!(removal_statement(false).contains("archived_at IS NULL AND deleted_at IS NULL"));
}

#[test]
fn timestamps_come_from_milliseconds_since_the_epoch() {
    assert_eq!(timestamp_from_millis(None), 0);
    assert_eq!(timestamp_from_millis(Some(1_700_000_000_123)), 1_700_000_000_123);
    assert_eq!(timestamp_from_millis(Some(1u128 << 64)), 0);
    assert!(unix_timestamp_millis() > 1_600_000_000_000);
}
