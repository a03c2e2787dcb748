//! Lookup-by-key: finds at most one book, by exact identifier or by
//! case-sensitive title substring, in the natural row order of the
//! store.

use vstd::prelude::*;
use crate::errors::KoboError;
use crate::model::{KoboBook, wf_book};
use crate::raw::{RawValue, reversed};
use crate::rows::{map_book_row, spec_book_of};
use crate::text::{contains_str, has_substring};

verus! {

/// The key a lookup matches rows against.
pub enum MatchKey {
    /// Exact match against the identifier column.
    ByIsbn(String),
    /// Case-sensitive substring match against the title column.
    ByTitle(String),
}

/// Does the raw row match the key?
pub open spec fn row_matches(row: Seq<RawValue>, key: MatchKey) -> bool {
    match key {
        MatchKey::ByIsbn(s) => row.len() == 15 && row[1] is Text && row[1]->Text_0@ == s@,
        MatchKey::ByTitle(t) => row.len() == 15 && row[2] is Text && has_substring(
            row[2]->Text_0@,
            t@,
        ),
    }
}

/// The first row that matches the key, in row order.
pub open spec fn spec_first_match(rows: Seq<Vec<RawValue>>, key: MatchKey) -> Option<
    Vec<RawValue>,
>
    decreases rows.len(),
{
    if rows.len() == 0 {
        None
    } else if row_matches(rows[0]@, key) {
        Some(rows[0])
    } else {
        spec_first_match(rows.drop_first(), key)
    }
}

/// Does the raw row match the key?
pub fn row_match_ok(row: &Vec<RawValue>, key: &MatchKey) -> (r: bool)
    ensures
        r == row_matches(row@, *key),
{
    if row.len() != 15 {
        return false;
    }
    match key {
        MatchKey::ByIsbn(s) => match &row[1] {
            RawValue::Text(t) => *t == *s,
            _ => false,
        },
        MatchKey::ByTitle(t) => match &row[2] {
            RawValue::Text(title) => contains_str(title.as_str(), t.as_str()),
            _ => false,
        },
    }
}

/// Finds the first row that matches the key, in row order.
pub fn find_first_match(rows: Vec<Vec<RawValue>>, key: &MatchKey) -> (r: Option<Vec<RawValue>>)
    ensures
        r == spec_first_match(rows@, *key),
{
    let ghost orig = rows@;
    let mut rev = reversed(rows);
    proof {
        assert(orig.skip(0) =~= orig);
    }
    while rev.len() > 0
        invariant
            orig == rows@,
            rev@.len() <= orig.len(),
            rev@ == orig.skip((orig.len() - rev@.len()) as int).reverse(),
            spec_first_match(orig, *key) == spec_first_match(
                orig.skip((orig.len() - rev@.len()) as int),
                *key,
            ),
        decreases rev.len(),
    {
        let ghost i: int = orig.len() - rev@.len();
        let x = rev.pop().unwrap();
        proof {
            assert(x == orig.skip(i as int).reverse().last());
            assert(orig.skip(i as int).reverse().last() == orig.skip(i as int)[0]);
            assert(orig.skip(i as int)[0] == orig[i as int]);
            assert(rev@ =~= orig.skip(i as int + 1).reverse());
        }
        if row_match_ok(&x, key) {
            proof {
                assert(spec_first_match(orig, *key) == spec_first_match(orig.skip(i as int), *key));
                assert(row_matches(x@, *key));
                assert(orig.skip(i as int).len() > 0);
                assert(orig.skip(i as int)[0] == x);
                assert(spec_first_match(orig.skip(i as int), *key) == Some(x));
            }
            return Some(x);
        }
        proof {
            assert(orig.skip(i as int).drop_first() =~= orig.skip(i as int + 1));
        }
    }
    proof {
        assert(orig.skip(orig.len() as int).len() == 0);
    }
    None
}

/// The outcome the lookup owes for given rows and arguments: an error
/// when neither key is supplied; otherwise the book of the first
/// matching row (the identifier takes precedence over the title), or
/// `None` when no row matches or the matching row cannot be mapped.
pub open spec fn spec_find_book(
    rows: Seq<Vec<RawValue>>,
    isbn: Option<String>,
    title: Option<String>,
) -> Result<Option<KoboBook>, KoboError> {
    if isbn is Some {
        match spec_first_match(rows, MatchKey::ByIsbn(isbn->0)) {
            Some(row) => Ok(spec_book_of(row@)),
            None => Ok(None),
        }
    } else if title is Some {
        match spec_first_match(rows, MatchKey::ByTitle(title->0)) {
            Some(row) => Ok(spec_book_of(row@)),
            None => Ok(None),
        }
    } else {
        Err(KoboError::InvalidLookupArgs)
    }
}

/// Looks a book up among the raw rows of the content table.
pub fn find_book_in_rows(
    rows: Vec<Vec<RawValue>>,
    isbn: &Option<String>,
    title: &Option<String>,
) -> (r: Result<Option<KoboBook>, KoboError>)
    ensures
        r == spec_find_book(rows@, *isbn, *title),
{
    let key = match (isbn, title) {
        (Some(s), _) => MatchKey::ByIsbn(s.clone()),
        (None, Some(t)) => MatchKey::ByTitle(t.clone()),
        (None, None) => {
            return Err(KoboError::InvalidLookupArgs);
        },
    };
    match find_first_match(rows, &key) {
        Some(row) => Ok(map_book_row(row)),
        None => Ok(None),
    }
}

/// A found row matches the key it was searched with.
pub proof fn lemma_first_match_matches(rows: Seq<Vec<RawValue>>, key: MatchKey)
    ensures
        spec_first_match(rows, key) matches Some(row) ==> row_matches(row@, key),
    decreases rows.len(),
{
    if rows.len() > 0 && !row_matches(rows[0]@, key) {
        lemma_first_match_matches(rows.drop_first(), key);
    }
}

/// What the lookup owes of a found book: it meets the progress
/// invariant and matches the key it was looked up by — the exact
/// identifier, or the title substring when only a title was given.
pub open spec fn found_book_matches(
    r: Result<Option<KoboBook>, KoboError>,
    isbn: Option<String>,
    title: Option<String>,
) -> bool {
    match r {
        Ok(found) => match found {
            Some(b) => {
                &&& wf_book(b)
                &&& (isbn is Some ==> b.isbn is Some && b.isbn->0@ == isbn->0@)
                &&& (isbn is None && title is Some ==> has_substring(b.title@, title->0@))
            },
            None => true,
        },
        Err(_) => true,
    }
}

/// Whatever rows a read hands back, a book the lookup finds matches the
/// key it was looked up by.
pub proof fn lemma_find_book_found(
    rows: Seq<Vec<RawValue>>,
    isbn: Option<String>,
    title: Option<String>,
)
    ensures
        found_book_matches(spec_find_book(rows, isbn, title), isbn, title),
{
    if isbn is Some {
        lemma_first_match_matches(rows, MatchKey::ByIsbn(isbn->0));
    } else if title is Some {
        lemma_first_match_matches(rows, MatchKey::ByTitle(title->0));
    }
}

} // verus!
