//! The typed view of the device library: immutable value records
//! reconstructed fresh on every read.
//!
//! The store's fractional progress columns are carried as scaled
//! integers: `percent_read_hundredths` holds hundredths of a percent
//! (so `10_000` is 100 %), and `chapter_progress_hundredths` holds
//! hundredths of the unit interval (so `100` is the end of the chapter).

use vstd::prelude::*;

verus! {

/// One book of the device library.
#[derive(Debug, Clone)]
pub struct KoboBook {
    pub content_id: String,
    pub isbn: Option<String>,
    pub title: String,
    /// Author.
    pub attribution: Option<String>,
    pub description: Option<String>,
    pub publisher: Option<String>,
    pub language: Option<String>,
    /// Read progress in hundredths of a percent, clamped into `0 ..= 10_000`;
    /// an absent source field yields `0`.
    pub percent_read_hundredths: u32,
    /// 0 = unread, 1 = reading, 2 = finished; an absent source field yields `0`.
    pub read_status: i64,
    /// Minutes; an absent source field yields `0`.
    pub time_spent_reading: i64,
    pub date_last_read: Option<String>,
    pub mime_type: String,
    pub content_type: String,
    pub user_id: Option<String>,
}

/// One reading event.
#[derive(Debug, Clone)]
pub struct KoboEvent {
    pub id: i64,
    pub content_id: String,
    pub event_type: i64,
    pub event_count: i64,
    pub last_occurrence: String,
    pub extra_data: Option<Vec<u8>>,
}

/// One bookmark or annotation.
#[derive(Debug, Clone)]
pub struct KoboBookmark {
    pub bookmark_id: String,
    pub volume_id: String,
    pub content_id: String,
    pub text: String,
    pub annotation: Option<String>,
    /// Position within the chapter in hundredths of the unit interval,
    /// clamped into `0 ..= 100`; an absent source field yields `0`.
    pub chapter_progress_hundredths: u32,
    pub start_container_path: Option<String>,
    pub start_offset: Option<i64>,
    pub end_container_path: Option<String>,
    pub end_offset: Option<i64>,
    pub date_created: String,
    pub date_modified: Option<String>,
    pub bookmark_type: String,
}

/// One saved vocabulary word.
#[derive(Debug, Clone)]
pub struct KoboVocabulary {
    pub text: String,
    pub volume_id: String,
    pub date_created: String,
}

/// One consistent, timestamped aggregation of all four entity
/// collections, read in a single logical operation.
#[derive(Debug, Clone)]
pub struct KoboLibraryData {
    pub books: Vec<KoboBook>,
    pub events: Vec<KoboEvent>,
    pub bookmarks: Vec<KoboBookmark>,
    pub vocabulary: Vec<KoboVocabulary>,
    /// Wall-clock time the read completed; the device clock is never trusted.
    pub last_sync: String,
}

/// The progress invariant of a book: read progress lies in `[0, 100]` percent.
pub open spec fn wf_book(b: KoboBook) -> bool {
    b.percent_read_hundredths <= 10_000
}

/// The progress invariant of a bookmark: chapter progress lies in `[0, 1]`.
pub open spec fn wf_bookmark(b: KoboBookmark) -> bool {
    b.chapter_progress_hundredths <= 100
}

} // verus!
