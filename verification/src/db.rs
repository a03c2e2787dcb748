//! Connection management and the public device-library operations.
//!
//! Every operation resolves the device root to the database file, opens
//! a read-only handle scoped to the call, runs its reads, and maps,
//! filters and orders the rows in verified code. The handle is released
//! on every exit path when it goes out of scope.

use vstd::prelude::*;
use rusqlite::types::Value as SqlValue;
use crate::errors::KoboError;
use crate::lookup::{find_book_in_rows, found_book_matches, spec_find_book};
use crate::model::{
    KoboBook, KoboBookmark, KoboEvent, KoboLibraryData, KoboVocabulary, wf_book, wf_bookmark,
};
use crate::order::sorted_desc;
use crate::paths::get_kobo_db_path;
use crate::raw::RawValue;
use crate::readers::{
    EVENT_LIMIT, VOCABULARY_LIMIT, books_from_rows, bookmarks_from_rows, events_from_rows,
    vocabulary_from_rows,
};
use crate::snapshot::assemble_snapshot;

verus! {

/// One read against the content table: every column of a book row, with
/// the fractional read percentage scaled to hundredths and the
/// content-type code and text each cast to a plain value. Selection by
/// content-type code is applied afterwards, in verified code.
const CONTENT_SQL: &'static str =
    "SELECT ContentID, ISBN, Title, Attribution, Description, Publisher, Language, CAST(ROUND(___PercentRead * 100) AS INTEGER), ReadStatus, TimeSpentReading, DateLastRead, MimeType, CAST(ContentType AS INTEGER), CAST(ContentType AS TEXT), ___UserID FROM content";

/// One read against the event table.
const EVENTS_SQL: &'static str =
    "SELECT Id, ContentID, Type, Count, LastOccurrence, ExtraData FROM Event";

/// One read against the bookmark table, with the fractional chapter
/// progress scaled to hundredths and the hidden flag cast to text. The
/// hidden-flag filter is applied afterwards, in verified code.
const BOOKMARKS_SQL: &'static str =
    "SELECT BookmarkID, VolumeID, ContentID, Text, Annotation, CAST(ROUND(ChapterProgress * 100) AS INTEGER), StartContainerPath, StartOffset, EndContainerPath, EndOffset, DateCreated, DateModified, Type, CAST(Hidden AS TEXT) FROM Bookmark";

/// One read against the vocabulary table.
const VOCABULARY_SQL: &'static str = "SELECT Text, VolumeID, DateCreated FROM WordList";

#[verifier::external_type_specification]
#[verifier::external_body]
pub struct ExConnection(rusqlite::Connection);

/// Relies on rusqlite's `Connection::open_with_flags` with the
/// read-only open flag: yields a handle on the database file at `path`,
/// or fails when the file is absent, unreadable, or not a valid
/// database.
#[verifier::external_body]
fn open_db_readonly(path: &str) -> (r: Result<rusqlite::Connection, KoboError>)
    ensures
        r matches Err(e) ==> e == KoboError::DatabaseOpenFailure,
{
    rusqlite::Connection::open_with_flags(path, rusqlite::OpenFlags::SQLITE_OPEN_READ_ONLY)
        .map_err(|_| KoboError::DatabaseOpenFailure)
}

/// Relies on rusqlite's `Connection::prepare` and
/// `Statement::query_map`: runs one parameterless read and hands back
/// every result row, each cell converted to a plain value, one variant
/// arm each. What comes back depends on what is on disk, so nothing
/// more is assumed of it.
#[verifier::external_body]
fn run_query(conn: &rusqlite::Connection, sql: &str) -> (r: Result<Vec<Vec<RawValue>>, KoboError>)
    ensures
        r matches Err(e) ==> e == KoboError::QueryFailure,
{
    let fetch = || -> rusqlite::Result<Vec<Vec<RawValue>>> {
        let mut stmt = conn.prepare(sql)?;
        let n = stmt.column_count();
        let rows = stmt.query_map([], |row| -> rusqlite::Result<Vec<RawValue>> {
            (0..n).map(|i| Ok(match row.get::<usize, SqlValue>(i)? {
                SqlValue::Null => RawValue::Null,
                SqlValue::Integer(v) => RawValue::Int(v),
                SqlValue::Real(_) => RawValue::Other,
                SqlValue::Text(s) => RawValue::Text(s),
                SqlValue::Blob(b) => RawValue::Blob(b),
            })).collect()
        })?;
        rows.collect()
    };
    fetch().map_err(|_| KoboError::QueryFailure)
}

/// Relies on chrono's `Utc::now` and `DateTime::to_rfc3339`: the
/// wall-clock time of the call as a timestamp string. The result
/// depends on the clock, so nothing is assumed of it.
#[verifier::external_body]
fn now_rfc3339() -> String {
    chrono::Utc::now().to_rfc3339()
}

/// Reads all books: those records of the content table whose
/// content-type code is a book code, ordered by last-read time
/// descending, never-read books last.
pub fn get_kobo_books(device_path: String) -> (r: Result<Vec<KoboBook>, KoboError>)
    ensures
        r matches Ok(bs) ==> sorted_desc(bs@) && (forall|i: int|
            0 <= i < bs@.len() ==> wf_book(#[trigger] bs@[i])),
        r matches Err(e) ==> e == KoboError::DatabaseOpenFailure || e == KoboError::QueryFailure,
{
    let path = get_kobo_db_path(device_path.as_str());
    let conn = match open_db_readonly(path.as_str()) {
        Ok(c) => c,
        Err(e) => {
            return Err(e);
        },
    };
    match run_query(&conn, CONTENT_SQL) {
        Ok(rows) => Ok(books_from_rows(rows)),
        Err(e) => Err(e),
    }
}

/// Reads reading events, ordered by occurrence time descending,
/// truncated to the most recent `EVENT_LIMIT`.
pub fn get_kobo_events(device_path: String) -> (r: Result<Vec<KoboEvent>, KoboError>)
    ensures
        r matches Ok(es) ==> sorted_desc(es@) && es@.len() <= EVENT_LIMIT as int,
        r matches Err(e) ==> e == KoboError::DatabaseOpenFailure || e == KoboError::QueryFailure,
{
    let path = get_kobo_db_path(device_path.as_str());
    let conn = match open_db_readonly(path.as_str()) {
        Ok(c) => c,
        Err(e) => {
            return Err(e);
        },
    };
    match run_query(&conn, EVENTS_SQL) {
        Ok(rows) => Ok(events_from_rows(rows)),
        Err(e) => Err(e),
    }
}

/// Reads bookmarks and annotations whose hidden flag is false, ordered
/// by creation time descending.
pub fn get_kobo_bookmarks(device_path: String) -> (r: Result<Vec<KoboBookmark>, KoboError>)
    ensures
        r matches Ok(bs) ==> sorted_desc(bs@) && (forall|i: int|
            0 <= i < bs@.len() ==> wf_bookmark(#[trigger] bs@[i])),
        r matches Err(e) ==> e == KoboError::DatabaseOpenFailure || e == KoboError::QueryFailure,
{
    let path = get_kobo_db_path(device_path.as_str());
    let conn = match open_db_readonly(path.as_str()) {
        Ok(c) => c,
        Err(e) => {
            return Err(e);
        },
    };
    match run_query(&conn, BOOKMARKS_SQL) {
        Ok(rows) => Ok(bookmarks_from_rows(rows)),
        Err(e) => Err(e),
    }
}

/// Reads vocabulary words, ordered by creation time descending,
/// truncated to the most recent `VOCABULARY_LIMIT`.
pub fn get_kobo_vocabulary(device_path: String) -> (r: Result<Vec<KoboVocabulary>, KoboError>)
    ensures
        r matches Ok(vs) ==> sorted_desc(vs@) && vs@.len() <= VOCABULARY_LIMIT as int,
        r matches Err(e) ==> e == KoboError::DatabaseOpenFailure || e == KoboError::QueryFailure,
{
    let path = get_kobo_db_path(device_path.as_str());
    let conn = match open_db_readonly(path.as_str()) {
        Ok(c) => c,
        Err(e) => {
            return Err(e);
        },
    };
    match run_query(&conn, VOCABULARY_SQL) {
        Ok(rows) => Ok(vocabulary_from_rows(rows)),
        Err(e) => Err(e),
    }
}

/// Reads the whole library in one logical operation against one open
/// connection. If any one of the four reads fails, every partial result
/// is discarded and the single failure is returned; a snapshot always
/// holds all four sequences and a wall-clock `last_sync` stamp taken
/// after the last read.
pub fn get_kobo_library_data(device_path: String) -> (r: Result<KoboLibraryData, KoboError>)
    ensures
        r matches Ok(d) ==> {
            &&& sorted_desc(d.books@)
            &&& forall|i: int| 0 <= i < d.books@.len() ==> wf_book(#[trigger] d.books@[i])
            &&& sorted_desc(d.events@)
            &&& d.events@.len() <= EVENT_LIMIT as int
            &&& sorted_desc(d.bookmarks@)
            &&& forall|i: int|
                0 <= i < d.bookmarks@.len() ==> wf_bookmark(#[trigger] d.bookmarks@[i])
            &&& sorted_desc(d.vocabulary@)
            &&& d.vocabulary@.len() <= VOCABULARY_LIMIT as int
        },
        r matches Err(e) ==> e == KoboError::DatabaseOpenFailure || e == KoboError::QueryFailure,
{
    let path = get_kobo_db_path(device_path.as_str());
    let conn = match open_db_readonly(path.as_str()) {
        Ok(c) => c,
        Err(e) => {
            return Err(e);
        },
    };
    let books = match run_query(&conn, CONTENT_SQL) {
        Ok(rows) => Ok(books_from_rows(rows)),
        Err(e) => Err(e),
    };
    let events = match run_query(&conn, EVENTS_SQL) {
        Ok(rows) => Ok(events_from_rows(rows)),
        Err(e) => Err(e),
    };
    let bookmarks = match run_query(&conn, BOOKMARKS_SQL) {
        Ok(rows) => Ok(bookmarks_from_rows(rows)),
        Err(e) => Err(e),
    };
    let vocabulary = match run_query(&conn, VOCABULARY_SQL) {
        Ok(rows) => Ok(vocabulary_from_rows(rows)),
        Err(e) => Err(e),
    };
    let stamp = now_rfc3339();
    assemble_snapshot(books, events, bookmarks, vocabulary, stamp)
}

/// Looks one book up, by exact identifier or, failing that, by
/// case-sensitive title substring, in the natural order of the content
/// table. At least one key is required; at most one book is returned.
pub fn get_book_progress(
    device_path: String,
    isbn: Option<String>,
    title: Option<String>,
) -> (r: Result<Option<KoboBook>, KoboError>)
    ensures
        isbn is None && title is None <==> r == Err::<Option<KoboBook>, KoboError>(
            KoboError::InvalidLookupArgs,
        ),
        r matches Err(e) ==> e == KoboError::DatabaseOpenFailure || e == KoboError::QueryFailure
            || e == KoboError::InvalidLookupArgs,
        found_book_matches(r, isbn, title),
{
    if isbn.is_none() && title.is_none() {
        return Err(KoboError::InvalidLookupArgs);
    }
    let path = get_kobo_db_path(device_path.as_str());
    let conn = match open_db_readonly(path.as_str()) {
        Ok(c) => c,
        Err(e) => {
            return Err(e);
        },
    };
    let rows = match run_query(&conn, CONTENT_SQL) {
        Ok(rows) => rows,
        Err(e) => {
            return Err(e);
        },
    };
    let ghost rows_view = rows@;
    let r = find_book_in_rows(rows, &isbn, &title);
    proof {
        crate::lookup::lemma_find_book_found(rows_view, isbn, title);
        assert(r == spec_find_book(rows_view, isbn, title));
    }
    r
}

} // verus!
