//! The snapshot aggregator's combination step: four read outcomes
//! become one snapshot, or one aggregate failure.

use vstd::prelude::*;
use crate::errors::KoboError;
use crate::model::{KoboBook, KoboBookmark, KoboEvent, KoboLibraryData, KoboVocabulary};

verus! {

/// Combines the outcomes of the four entity reads into one snapshot,
/// stamped with `last_sync`.
///
/// Atomicity: the result is a snapshot exactly when all four reads
/// succeeded, and it then holds exactly what they produced; if any read
/// failed, the result is that read's single failure (the first, in the
/// order books, events, bookmarks, vocabulary) and every partial result
/// is discarded. A snapshot with fewer than four populated sequences is
/// never produced.
pub fn assemble_snapshot(
    books: Result<Vec<KoboBook>, KoboError>,
    events: Result<Vec<KoboEvent>, KoboError>,
    bookmarks: Result<Vec<KoboBookmark>, KoboError>,
    vocabulary: Result<Vec<KoboVocabulary>, KoboError>,
    last_sync: String,
) -> (r: Result<KoboLibraryData, KoboError>)
    ensures
        r is Ok <==> (books is Ok && events is Ok && bookmarks is Ok && vocabulary is Ok),
        r matches Ok(d) ==> d.books == books->Ok_0 && d.events == events->Ok_0 && d.bookmarks
            == bookmarks->Ok_0 && d.vocabulary == vocabulary->Ok_0 && d.last_sync == last_sync,
        books matches Err(e) ==> r == Err::<KoboLibraryData, KoboError>(e),
        books is Ok ==> (events matches Err(e) ==> r == Err::<KoboLibraryData, KoboError>(e)),
        books is Ok && events is Ok ==> (bookmarks matches Err(e) ==> r == Err::<
            KoboLibraryData,
            KoboError,
        >(e)),
        books is Ok && events is Ok && bookmarks is Ok ==> (vocabulary matches Err(e) ==> r
            == Err::<KoboLibraryData, KoboError>(e)),
{
    let books = match books {
        Ok(b) => b,
        Err(e) => {
            return Err(e);
        },
    };
    let events = match events {
        Ok(ev) => ev,
        Err(e) => {
            return Err(e);
        },
    };
    let bookmarks = match bookmarks {
        Ok(b) => b,
        Err(e) => {
            return Err(e);
        },
    };
    let vocabulary = match vocabulary {
        Ok(v) => v,
        Err(e) => {
            return Err(e);
        },
    };
    Ok(KoboLibraryData { books, events, bookmarks, vocabulary, last_sync })
}

} // verus!
