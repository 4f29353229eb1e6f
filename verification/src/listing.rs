//! How the note list of the all-notes window presents notes: titles,
//! one-line previews, the status line, and which actions are offered.
use vstd::prelude::*;

use crate::app::Note;
use crate::storage::NoteCollection;

verus! {

broadcast use vstd::string::group_string_axioms;

/// Whether `c` has the Unicode White_Space property, as `char::is_whitespace`
/// decides it.
pub uninterp spec fn is_unicode_whitespace(c: char) -> bool;

/// `char::is_whitespace`. The result is a fixed property of the character
/// (Unicode White_Space), named by `is_unicode_whitespace`; which characters
/// have it is not listed here.
#[verifier::external_body]
fn is_whitespace(c: char) -> (blank: bool)
    ensures
        blank == is_unicode_whitespace(c),
{
    c.is_whitespace()
}

/// `String::push`: appends one character.
#[verifier::external_body]
fn push_char(text: &mut String, c: char)
    ensures
        final(text)@ == old(text)@.push(c),
{
    text.push(c)
}

/// Every character of `text` is whitespace (so trimming leaves nothing).
pub open spec fn is_blank(text: Seq<char>) -> bool {
    forall|i: int| 0 <= i < text.len() ==> is_unicode_whitespace(#[trigger] text[i])
}

/// The title shown for a note; a blank title shows as "Untitled note".
pub open spec fn shown_title(title: Seq<char>) -> Seq<char> {
    if is_blank(title) {
        "Untitled note"@
    } else {
        title
    }
}

pub fn display_title(note: &Note) -> (title: &str)
    ensures
        title@ == shown_title(note.title@),
{
    let text = note.title.as_str();
    let mut blank = true;
    for c in it: text.chars()
        invariant
            it.seq() == text@,
            blank == (forall|j: int| 0 <= j < it.index() ==> is_unicode_whitespace(#[trigger] text@[j])),
    {
        if !is_whitespace(c) {
            blank = false;
        }
    }
    if blank {
        "Untitled note"
    } else {
        text
    }
}

/// `text` with each run of whitespace turned into one space and the
/// whitespace at both ends dropped: its words joined by single spaces.
pub open spec fn collapse_whitespace(text: Seq<char>) -> Seq<char>
    decreases text.len(),
{
    if text.len() == 0 {
        Seq::empty()
    } else {
        let before = text.drop_last();
        let c = text.last();
        if is_unicode_whitespace(c) {
            collapse_whitespace(before)
        } else if before.len() > 0 && is_unicode_whitespace(before.last())
            && collapse_whitespace(before).len() > 0 {
            collapse_whitespace(before).push(' ').push(c)
        } else {
            collapse_whitespace(before).push(c)
        }
    }
}

/// How many characters of a body the preview shows.
pub const PREVIEW_CHARS: usize = 80;

/// The one-line preview of a body: its words on one line, cut after
/// `PREVIEW_CHARS` characters with "..." appended when there are more.
pub open spec fn preview_text(body: Seq<char>) -> Seq<char> {
    let line = collapse_whitespace(body);
    if line.len() > PREVIEW_CHARS {
        line.take(PREVIEW_CHARS as int) + "..."@
    } else {
        line
    }
}

pub fn body_preview(body: &str) -> (preview: String)
    ensures
        preview@ == preview_text(body@),
{
    let mut line: Vec<char> = Vec::new();
    let mut gap = false;
    for c in it: body.chars()
        invariant
            it.seq() == body@,
            line@ == collapse_whitespace(body@.take(it.index())),
            gap == (it.index() > 0 && is_unicode_whitespace(body@[it.index() - 1]) && line@.len() > 0),
    {
        proof {
            let taken = body@.take(it.index() + 1);
            assert(taken.drop_last() =~= body@.take(it.index()));
            assert(taken.last() == c);
        }
        if is_whitespace(c) {
            if line.len() > 0 {
                gap = true;
            }
        } else {
            if gap {
                line.push(' ');
                gap = false;
            }
            line.push(c);
        }
    }
    assert(body@.take(body@.len() as int) =~= body@);
    let limit: usize = if line.len() > PREVIEW_CHARS {
        PREVIEW_CHARS
    } else {
        line.len()
    };
    let mut preview = String::new();
    for i in 0..limit
        invariant
            limit <= line@.len(),
            preview@ =~= line@.take(i as int),
    {
        push_char(&mut preview, line[i]);
        assert(line@.take(i + 1) =~= line@.take(i as int).push(line@[i as int]));
    }
    if line.len() > PREVIEW_CHARS {
        preview.append("...");
    } else {
        assert(line@.take(limit as int) =~= line@);
    }
    preview
}

/// The decimal digits of `n`, most significant first.
pub open spec fn decimal(n: nat) -> Seq<char>
    decreases n,
{
    let digit = ((n % 10) + 48) as char;
    if n < 10 {
        seq![digit]
    } else {
        decimal(n / 10).push(digit)
    }
}

/// `ToString::to_string` on a `usize`: its decimal form, as `Display`
/// writes an unsigned integer.
#[verifier::external_body]
fn decimal_string(n: usize) -> (text: String)
    ensures
        text@ == decimal(n as nat),
{
    n.to_string()
}

/// The status line under the note list.
pub open spec fn status_text(count: nat) -> Seq<char> {
    if count == 0 {
        "No notes found"@
    } else if count == 1 {
        "1 note"@
    } else {
        decimal(count) + " notes"@
    }
}

pub fn status_line(count: usize) -> (line: String)
    ensures
        line@ == status_text(count as nat),
{
    if count == 0 {
        String::from_str("No notes found")
    } else if count == 1 {
        String::from_str("1 note")
    } else {
        decimal_string(count).concat(" notes")
    }
}

/// Which note actions the window offers: pin and archive for active notes,
/// restore for archived ones, delete for both; each works only on a
/// selected note.
pub struct NoteActions {
    pub pin_visible: bool,
    pub archive_visible: bool,
    pub restore_visible: bool,
    pub pin_enabled: bool,
    pub archive_enabled: bool,
    pub restore_enabled: bool,
    pub delete_enabled: bool,
}

pub fn note_actions(collection: NoteCollection, has_selection: bool) -> (actions: NoteActions)
    ensures
        actions.pin_visible == (collection == NoteCollection::Active),
        actions.archive_visible == (collection == NoteCollection::Active),
        actions.restore_visible == (collection == NoteCollection::Archived),
        actions.pin_enabled == (has_selection && collection == NoteCollection::Active),
        actions.archive_enabled == (has_selection && collection == NoteCollection::Active),
        actions.restore_enabled == (has_selection && collection == NoteCollection::Archived),
        actions.delete_enabled == has_selection,
{
    let archived = collection == NoteCollection::Archived;
    NoteActions {
        pin_visible: !archived,
        archive_visible: !archived,
        restore_visible: archived,
        pin_enabled: has_selection && !archived,
        archive_enabled: has_selection && !archived,
        restore_enabled: has_selection && archived,
        delete_enabled: has_selection,
    }
}

/// The label of the pin button: it unpins a pinned note.
pub fn pin_label(pinned: bool) -> (label: &'static str)
    ensures
        label@ == (if pinned {
            "Unpin"@
        } else {
            "Pin"@
        }),
{
    if pinned {
        "Unpin"
    } else {
        "Pin"
    }
}

/// The number that a sequence of decimal digits denotes.
pub open spec fn digits_value(digits: Seq<char>) -> int
    decreases digits.len(),
{
    if digits.len() == 0 {
        0
    } else {
        digits_value(digits.drop_last()) * 10 + (digits.last() as int - 48)
    }
}

/// `decimal(n)` is the usual way of writing `n`: decimal digits only,
/// no leading zero, denoting `n`.
pub proof fn law_decimal_writes_the_number(n: nat)
    ensures
        decimal(n).len() > 0,
        forall|i: int| 0 <= i < decimal(n).len() ==> '0' <= #[trigger] decimal(n)[i] <= '9',
        digits_value(decimal(n)) == n,
        n > 0 ==> decimal(n)[0] != '0',
    decreases n,
{
    let digit = ((n % 10) + 48) as char;
    assert(digit as int == (n % 10) + 48);
    if n >= 10 {
        law_decimal_writes_the_number(n / 10);
        let d = decimal(n);
        assert(d.drop_last() =~= decimal(n / 10));
        assert forall|i: int| 0 <= i < d.len() implies '0' <= #[trigger] d[i] <= '9' by {
            if i < d.len() - 1 {
                assert(d[i] == decimal(n / 10)[i]);
            }
        }
        assert(d[0] == decimal(n / 10)[0]);
        assert(d.last() == digit);
        assert(digits_value(d) == digits_value(decimal(n / 10)) * 10 + (digit as int - 48));
        assert((n / 10) * 10 + n % 10 == n) by (nonlinear_arith);
        assert(digits_value(d) == n);
    } else {
        let d = decimal(n);
        assert(d.drop_last() =~= Seq::<char>::empty());
        assert(d.last() == digit);
        assert(digits_value(d) == digits_value(d.drop_last()) * 10 + (digit as int - 48));
        assert(digits_value(d) == n);
    }
}

/// The status line counts the notes: none, one, or the number written in
/// decimal followed by " notes".
pub proof fn law_status_counts_notes(count: nat)
    ensures
        count >= 2 ==> digits_value(status_text(count).subrange(0, decimal(count).len() as int))
            == count,
        count >= 2 ==> status_text(count).subrange(
            decimal(count).len() as int,
            status_text(count).len() as int,
        ) == " notes"@,
{
    if count >= 2 {
        law_decimal_writes_the_number(count);
        let t = status_text(count);
        assert(t.subrange(0, decimal(count).len() as int) =~= decimal(count));
        assert(t.subrange(decimal(count).len() as int, t.len() as int) =~= " notes"@);
    }
}

/// Collapsing whitespace leaves nothing exactly when the text is blank,
/// leaves a text without whitespace as it is, and the only whitespace it
/// can leave is a single space between words.
pub proof fn law_collapse_whitespace(text: Seq<char>)
    ensures
        collapse_whitespace(text).len() == 0 <==> is_blank(text),
        (forall|i: int| 0 <= i < text.len() ==> !is_unicode_whitespace(#[trigger] text[i]))
            ==> collapse_whitespace(text) == text,
        forall|i: int|
            0 <= i < collapse_whitespace(text).len() && is_unicode_whitespace(
                #[trigger] collapse_whitespace(text)[i],
            ) ==> collapse_whitespace(text)[i] == ' ',
        collapse_whitespace(text).len() <= 2 * text.len(),
    decreases text.len(),
{
    if text.len() > 0 {
        let before = text.drop_last();
        law_collapse_whitespace(before);
        let c = text.last();
        assert forall|i: int| 0 <= i < before.len() implies before[i] == text[i] by {}
        if is_blank(text) {
            assert(is_unicode_whitespace(text[text.len() - 1]));
            assert(is_blank(before));
        }
        if is_blank(before) && is_unicode_whitespace(c) {
            assert forall|i: int| 0 <= i < text.len() implies is_unicode_whitespace(#[trigger] text[i]) by {
                if i < before.len() {
                    assert(before[i] == text[i]);
                }
            }
        }
        if forall|i: int| 0 <= i < text.len() ==> !is_unicode_whitespace(#[trigger] text[i]) {
            assert(!is_unicode_whitespace(text[text.len() - 1]));
            assert forall|i: int| 0 <= i < before.len() implies !is_unicode_whitespace(#[trigger] before[i]) by {
                assert(before[i] == text[i]);
            }
            if before.len() > 0 {
                assert(!is_unicode_whitespace(text[before.len() - 1]));
            }
            assert(collapse_whitespace(text) =~= text);
        }
    } else {
        assert(collapse_whitespace(text) =~= text);
    }
}

/// A preview is never longer than `PREVIEW_CHARS` characters and "...",
/// and a line that fits is shown whole.
pub proof fn law_preview_is_bounded(body: Seq<char>)
    ensures
        preview_text(body).len() <= PREVIEW_CHARS + 3,
        collapse_whitespace(body).len() <= PREVIEW_CHARS ==> preview_text(body) == collapse_whitespace(body),
        collapse_whitespace(body).len() > PREVIEW_CHARS ==> preview_text(body).subrange(0, PREVIEW_CHARS as int)
            == collapse_whitespace(body).subrange(0, PREVIEW_CHARS as int),
{
    reveal_strlit("...");
    let line = collapse_whitespace(body);
    if line.len() > PREVIEW_CHARS {
        assert(preview_text(body).subrange(0, PREVIEW_CHARS as int) =~= line.subrange(0, PREVIEW_CHARS as int));
    }
}

} // verus!
