//! Row mapping: turns the raw rows of each read into typed entities,
//! under the best-effort policy. A row that lacks a required field is
//! dropped; an absent optional field yields its documented default.

use vstd::prelude::*;
use vstd::string::StringExecFns;
use crate::model::{KoboBook, KoboBookmark, KoboEvent, KoboVocabulary};
use crate::order::SortKeyed;
use crate::raw::{
    RawValue, clamp_to, int_or_zero, opt_blob, opt_int, opt_text, spec_clamp, take_blob, take_int,
    take_int_or_zero, take_text,
};

verus! {

// ---------------------------------------------------------------------
// Sort keys: every reader orders by a timestamp, most recent first.
// ---------------------------------------------------------------------
impl SortKeyed for KoboBook {
    /// Books are ordered by last-read time; a book never read sorts
    /// last, behind every timestamp.
    open spec fn sort_key(&self) -> Seq<char> {
        match self.date_last_read {
            Some(d) => d@,
            None => Seq::empty(),
        }
    }

    fn key_str(&self) -> (r: &str) {
        match &self.date_last_read {
            Some(d) => d.as_str(),
            None => {
                let e = "";
                proof {
                    reveal_strlit("");
                    assert(e@ =~= Seq::<char>::empty());
                }
                e
            },
        }
    }
}

impl SortKeyed for KoboEvent {
    open spec fn sort_key(&self) -> Seq<char> {
        self.last_occurrence@
    }

    fn key_str(&self) -> (r: &str) {
        self.last_occurrence.as_str()
    }
}

impl SortKeyed for KoboBookmark {
    open spec fn sort_key(&self) -> Seq<char> {
        self.date_created@
    }

    fn key_str(&self) -> (r: &str) {
        self.date_created.as_str()
    }
}

impl SortKeyed for KoboVocabulary {
    open spec fn sort_key(&self) -> Seq<char> {
        self.date_created@
    }

    fn key_str(&self) -> (r: &str) {
        self.date_created.as_str()
    }
}

// ---------------------------------------------------------------------
// Books. Row columns: 0 ContentID, 1 ISBN, 2 Title, 3 Attribution,
// 4 Description, 5 Publisher, 6 Language, 7 read percentage in
// hundredths, 8 ReadStatus, 9 TimeSpentReading, 10 DateLastRead,
// 11 MimeType, 12 content-type code, 13 content-type text, 14 UserID.
// ---------------------------------------------------------------------

/// The row describes a book: its content-type code is one of the two
/// documented device codes for "book" (6) and "book part" (9).
pub open spec fn book_row_selected(row: Seq<RawValue>) -> bool {
    row.len() == 15 && row[12] is Int && (row[12]->Int_0 == 6 || row[12]->Int_0 == 9)
}

/// The book an eligible row maps to, or `None` when a required field
/// (content id, title, mime type, content type) is absent.
pub open spec fn spec_book_of(row: Seq<RawValue>) -> Option<KoboBook> {
    if row.len() != 15 {
        None
    } else if !(row[0] is Text && row[2] is Text && row[11] is Text && row[13] is Text) {
        None
    } else {
        Some(
            KoboBook {
                content_id: row[0]->Text_0,
                isbn: opt_text(row[1]),
                title: row[2]->Text_0,
                attribution: opt_text(row[3]),
                description: opt_text(row[4]),
                publisher: opt_text(row[5]),
                language: opt_text(row[6]),
                percent_read_hundredths: spec_clamp(int_or_zero(row[7]), 10_000),
                read_status: int_or_zero(row[8]),
                time_spent_reading: int_or_zero(row[9]),
                date_last_read: opt_text(row[10]),
                mime_type: row[11]->Text_0,
                content_type: row[13]->Text_0,
                user_id: opt_text(row[14]),
            },
        )
    }
}

/// Does the row carry one of the two book content-type codes?
pub fn book_row_code_ok(row: &Vec<RawValue>) -> (r: bool)
    ensures
        r == book_row_selected(row@),
{
    if row.len() != 15 {
        return false;
    }
    match &row[12] {
        RawValue::Int(v) => *v == 6 || *v == 9,
        _ => false,
    }
}

/// Maps one raw row to a book.
pub fn map_book_row(row: Vec<RawValue>) -> (r: Option<KoboBook>)
    ensures
        r == spec_book_of(row@),
{
    if row.len() != 15 {
        return None;
    }
    let mut row = row;
    let c14 = row.pop().unwrap();
    let c13 = row.pop().unwrap();
    let _c12 = row.pop().unwrap();
    let c11 = row.pop().unwrap();
    let c10 = row.pop().unwrap();
    let c9 = row.pop().unwrap();
    let c8 = row.pop().unwrap();
    let c7 = row.pop().unwrap();
    let c6 = row.pop().unwrap();
    let c5 = row.pop().unwrap();
    let c4 = row.pop().unwrap();
    let c3 = row.pop().unwrap();
    let c2 = row.pop().unwrap();
    let c1 = row.pop().unwrap();
    let c0 = row.pop().unwrap();
    match (c0, c2, c11, c13) {
        (RawValue::Text(content_id), RawValue::Text(title), RawValue::Text(mime_type), RawValue::Text(content_type)) => Some(
            KoboBook {
                content_id,
                isbn: take_text(c1),
                title,
                attribution: take_text(c3),
                description: take_text(c4),
                publisher: take_text(c5),
                language: take_text(c6),
                percent_read_hundredths: clamp_to(take_int_or_zero(c7), 10_000),
                read_status: take_int_or_zero(c8),
                time_spent_reading: take_int_or_zero(c9),
                date_last_read: take_text(c10),
                mime_type,
                content_type,
                user_id: take_text(c14),
            },
        ),
        _ => None,
    }
}

/// The books of a sequence of raw rows, in row order: rows whose
/// content-type code is not a book code, and rows missing a required
/// field, are dropped.
pub open spec fn mapped_books(rows: Seq<Vec<RawValue>>) -> Seq<KoboBook>
    decreases rows.len(),
{
    if rows.len() == 0 {
        Seq::empty()
    } else {
        let init = mapped_books(rows.drop_last());
        let last = rows.last()@;
        if book_row_selected(last) && spec_book_of(last) is Some {
            init.push(spec_book_of(last)->Some_0)
        } else {
            init
        }
    }
}

// ---------------------------------------------------------------------
// Events. Row columns: 0 Id, 1 ContentID, 2 Type, 3 Count,
// 4 LastOccurrence, 5 ExtraData.
// ---------------------------------------------------------------------

/// The event a row maps to, or `None` when a required field is absent.
pub open spec fn spec_event_of(row: Seq<RawValue>) -> Option<KoboEvent> {
    if row.len() != 6 {
        None
    } else if !(row[0] is Int && row[1] is Text && row[2] is Int && row[3] is Int
        && row[4] is Text) {
        None
    } else {
        Some(
            KoboEvent {
                id: row[0]->Int_0,
                content_id: row[1]->Text_0,
                event_type: row[2]->Int_0,
                event_count: row[3]->Int_0,
                last_occurrence: row[4]->Text_0,
                extra_data: opt_blob(row[5]),
            },
        )
    }
}

/// Maps one raw row to a reading event.
pub fn map_event_row(row: Vec<RawValue>) -> (r: Option<KoboEvent>)
    ensures
        r == spec_event_of(row@),
{
    if row.len() != 6 {
        return None;
    }
    let mut row = row;
    let c5 = row.pop().unwrap();
    let c4 = row.pop().unwrap();
    let c3 = row.pop().unwrap();
    let c2 = row.pop().unwrap();
    let c1 = row.pop().unwrap();
    let c0 = row.pop().unwrap();
    match (c0, c1, c2, c3, c4) {
        (RawValue::Int(id), RawValue::Text(content_id), RawValue::Int(event_type), RawValue::Int(event_count), RawValue::Text(last_occurrence)) => Some(
            KoboEvent { id, content_id, event_type, event_count, last_occurrence, extra_data: take_blob(c5) },
        ),
        _ => None,
    }
}

/// The events of a sequence of raw rows, in row order.
pub open spec fn mapped_events(rows: Seq<Vec<RawValue>>) -> Seq<KoboEvent>
    decreases rows.len(),
{
    if rows.len() == 0 {
        Seq::empty()
    } else {
        let init = mapped_events(rows.drop_last());
        match spec_event_of(rows.last()@) {
            Some(e) => init.push(e),
            None => init,
        }
    }
}

// ---------------------------------------------------------------------
// Bookmarks. Row columns: 0 BookmarkID, 1 VolumeID, 2 ContentID,
// 3 Text, 4 Annotation, 5 chapter progress in hundredths,
// 6 StartContainerPath, 7 StartOffset, 8 EndContainerPath, 9 EndOffset,
// 10 DateCreated, 11 DateModified, 12 Type, 13 hidden flag as text.
// ---------------------------------------------------------------------

/// The row's hidden flag is the text `false`: only such bookmarks are
/// handed out.
pub open spec fn bookmark_row_visible(row: Seq<RawValue>) -> bool {
    row.len() == 14 && row[13] is Text && row[13]->Text_0@ == "false"@
}

/// The bookmark a visible row maps to, or `None` when a required field
/// is absent.
pub open spec fn spec_bookmark_of(row: Seq<RawValue>) -> Option<KoboBookmark> {
    if row.len() != 14 {
        None
    } else if !(row[0] is Text && row[1] is Text && row[2] is Text && row[3] is Text
        && row[10] is Text && row[12] is Text) {
        None
    } else {
        Some(
            KoboBookmark {
                bookmark_id: row[0]->Text_0,
                volume_id: row[1]->Text_0,
                content_id: row[2]->Text_0,
                text: row[3]->Text_0,
                annotation: opt_text(row[4]),
                chapter_progress_hundredths: spec_clamp(int_or_zero(row[5]), 100),
                start_container_path: opt_text(row[6]),
                start_offset: opt_int(row[7]),
                end_container_path: opt_text(row[8]),
                end_offset: opt_int(row[9]),
                date_created: row[10]->Text_0,
                date_modified: opt_text(row[11]),
                bookmark_type: row[12]->Text_0,
            },
        )
    }
}

/// Is the row's hidden flag the text `false`?
pub fn bookmark_row_visible_ok(row: &Vec<RawValue>) -> (r: bool)
    ensures
        r == bookmark_row_visible(row@),
{
    if row.len() != 14 {
        return false;
    }
    let fls = String::from_str("false");
    match &row[13] {
        RawValue::Text(s) => *s == fls,
        _ => false,
    }
}

/// Maps one raw row to a bookmark.
pub fn map_bookmark_row(row: Vec<RawValue>) -> (r: Option<KoboBookmark>)
    ensures
        r == spec_bookmark_of(row@),
{
    if row.len() != 14 {
        return None;
    }
    let mut row = row;
    let _c13 = row.pop().unwrap();
    let c12 = row.pop().unwrap();
    let c11 = row.pop().unwrap();
    let c10 = row.pop().unwrap();
    let c9 = row.pop().unwrap();
    let c8 = row.pop().unwrap();
    let c7 = row.pop().unwrap();
    let c6 = row.pop().unwrap();
    let c5 = row.pop().unwrap();
    let c4 = row.pop().unwrap();
    let c3 = row.pop().unwrap();
    let c2 = row.pop().unwrap();
    let c1 = row.pop().unwrap();
    let c0 = row.pop().unwrap();
    match (c0, c1, c2, c3, c10, c12) {
        (RawValue::Text(bookmark_id), RawValue::Text(volume_id), RawValue::Text(content_id), RawValue::Text(text), RawValue::Text(date_created), RawValue::Text(bookmark_type)) => Some(
            KoboBookmark {
                bookmark_id,
                volume_id,
                content_id,
                text,
                annotation: take_text(c4),
                chapter_progress_hundredths: clamp_to(take_int_or_zero(c5), 100),
                start_container_path: take_text(c6),
                start_offset: take_int(c7),
                end_container_path: take_text(c8),
                end_offset: take_int(c9),
                date_created,
                date_modified: take_text(c11),
                bookmark_type,
            },
        ),
        _ => None,
    }
}

/// The visible bookmarks of a sequence of raw rows, in row order.
pub open spec fn mapped_bookmarks(rows: Seq<Vec<RawValue>>) -> Seq<KoboBookmark>
    decreases rows.len(),
{
    if rows.len() == 0 {
        Seq::empty()
    } else {
        let init = mapped_bookmarks(rows.drop_last());
        let last = rows.last()@;
        if bookmark_row_visible(last) && spec_bookmark_of(last) is Some {
            init.push(spec_bookmark_of(last)->Some_0)
        } else {
            init
        }
    }
}

// ---------------------------------------------------------------------
// Vocabulary. Row columns: 0 Text, 1 VolumeID, 2 DateCreated.
// ---------------------------------------------------------------------

/// The vocabulary entry a row maps to; every field is required.
pub open spec fn spec_vocab_of(row: Seq<RawValue>) -> Option<KoboVocabulary> {
    if row.len() != 3 {
        None
    } else if !(row[0] is Text && row[1] is Text && row[2] is Text) {
        None
    } else {
        Some(
            KoboVocabulary {
                text: row[0]->Text_0,
                volume_id: row[1]->Text_0,
                date_created: row[2]->Text_0,
            },
        )
    }
}

/// Maps one raw row to a vocabulary entry.
pub fn map_vocab_row(row: Vec<RawValue>) -> (r: Option<KoboVocabulary>)
    ensures
        r == spec_vocab_of(row@),
{
    if row.len() != 3 {
        return None;
    }
    let mut row = row;
    let c2 = row.pop().unwrap();
    let c1 = row.pop().unwrap();
    let c0 = row.pop().unwrap();
    match (c0, c1, c2) {
        (RawValue::Text(text), RawValue::Text(volume_id), RawValue::Text(date_created)) => Some(
            KoboVocabulary { text, volume_id, date_created },
        ),
        _ => None,
    }
}

/// The vocabulary entries of a sequence of raw rows, in row order.
pub open spec fn mapped_vocab(rows: Seq<Vec<RawValue>>) -> Seq<KoboVocabulary>
    decreases rows.len(),
{
    if rows.len() == 0 {
        Seq::empty()
    } else {
        let init = mapped_vocab(rows.drop_last());
        match spec_vocab_of(rows.last()@) {
            Some(v) => init.push(v),
            None => init,
        }
    }
}

} // verus!
