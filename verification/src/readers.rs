//! Entity readers: each turns the raw rows of one read into its typed,
//! filtered, ordered (and, where documented, truncated) entity list.

use vstd::prelude::*;
use crate::model::{KoboBook, KoboBookmark, KoboEvent, KoboVocabulary, wf_book, wf_bookmark};
use crate::order::{
    SortKeyed, capped, lemma_sorted_prefix, sort_by_key_desc, sorted_desc, take_prefix,
};
use crate::raw::{RawValue, reversed};
use crate::rows::{
    book_row_code_ok, book_row_selected, bookmark_row_visible, bookmark_row_visible_ok,
    map_book_row, map_bookmark_row, map_event_row, map_vocab_row, mapped_books, mapped_bookmarks,
    mapped_events, mapped_vocab, spec_book_of, spec_bookmark_of,
};

verus! {

/// The most recent reading events a reader hands out at most.
pub const EVENT_LIMIT: usize = 1000;

/// The most recent vocabulary entries a reader hands out at most.
pub const VOCABULARY_LIMIT: usize = 500;

/// Maps every raw row to a book, keeping row order; ineligible rows are
/// dropped.
pub fn map_book_rows(rows: Vec<Vec<RawValue>>) -> (r: Vec<KoboBook>)
    ensures
        r@ == mapped_books(rows@),
{
    let ghost orig = rows@;
    let mut rev = reversed(rows);
    let mut out: Vec<KoboBook> = Vec::new();
    proof {
        assert(orig.skip(0) =~= orig);
        assert(orig.take(0) =~= Seq::<Vec<RawValue>>::empty());
    }
    while rev.len() > 0
        invariant
            rev@.len() <= orig.len(),
            rev@ == orig.skip((orig.len() - rev@.len()) as int).reverse(),
            out@ == mapped_books(orig.take((orig.len() - rev@.len()) as int)),
        decreases rev.len(),
    {
        let ghost i: int = orig.len() - rev@.len();
        let x = rev.pop().unwrap();
        proof {
            assert(x == orig.skip(i as int).reverse().last());
            assert(orig.skip(i as int).reverse().last() == orig.skip(i as int)[0]);
            assert(orig.skip(i as int)[0] == orig[i as int]);
            assert(rev@ =~= orig.skip(i as int + 1).reverse());
        }
        if book_row_code_ok(&x) {
            match map_book_row(x) {
                Some(b) => out.push(b),
                None => {},
            }
        }
        proof {
            let t = orig.take(i as int + 1);
            assert(t.drop_last() =~= orig.take(i as int));
            assert(t.last() == orig[i as int]);
            assert(out@ == mapped_books(t));
        }
    }
    proof {
        assert(orig.take(orig.len() as int) =~= orig);
    }
    out
}

/// Maps every raw row to a reading event, keeping row order.
pub fn map_event_rows(rows: Vec<Vec<RawValue>>) -> (r: Vec<KoboEvent>)
    ensures
        r@ == mapped_events(rows@),
{
    let ghost orig = rows@;
    let mut rev = reversed(rows);
    let mut out: Vec<KoboEvent> = Vec::new();
    proof {
        assert(orig.skip(0) =~= orig);
        assert(orig.take(0) =~= Seq::<Vec<RawValue>>::empty());
    }
    while rev.len() > 0
        invariant
            rev@.len() <= orig.len(),
            rev@ == orig.skip((orig.len() - rev@.len()) as int).reverse(),
            out@ == mapped_events(orig.take((orig.len() - rev@.len()) as int)),
        decreases rev.len(),
    {
        let ghost i: int = orig.len() - rev@.len();
        let x = rev.pop().unwrap();
        proof {
            assert(x == orig.skip(i as int).reverse().last());
            assert(orig.skip(i as int).reverse().last() == orig.skip(i as int)[0]);
            assert(orig.skip(i as int)[0] == orig[i as int]);
            assert(rev@ =~= orig.skip(i as int + 1).reverse());
        }
        match map_event_row(x) {
            Some(e) => out.push(e),
            None => {},
        }
        proof {
            let t = orig.take(i as int + 1);
            assert(t.drop_last() =~= orig.take(i as int));
            assert(t.last() == orig[i as int]);
            assert(out@ == mapped_events(t));
        }
    }
    proof {
        assert(orig.take(orig.len() as int) =~= orig);
    }
    out
}

/// Maps every raw row to a bookmark, keeping row order; hidden rows are
/// dropped.
pub fn map_bookmark_rows(rows: Vec<Vec<RawValue>>) -> (r: Vec<KoboBookmark>)
    ensures
        r@ == mapped_bookmarks(rows@),
{
    let ghost orig = rows@;
    let mut rev = reversed(rows);
    let mut out: Vec<KoboBookmark> = Vec::new();
    proof {
        assert(orig.skip(0) =~= orig);
        assert(orig.take(0) =~= Seq::<Vec<RawValue>>::empty());
    }
    while rev.len() > 0
        invariant
            rev@.len() <= orig.len(),
            rev@ == orig.skip((orig.len() - rev@.len()) as int).reverse(),
            out@ == mapped_bookmarks(orig.take((orig.len() - rev@.len()) as int)),
        decreases rev.len(),
    {
        let ghost i: int = orig.len() - rev@.len();
        let x = rev.pop().unwrap();
        proof {
            assert(x == orig.skip(i as int).reverse().last());
            assert(orig.skip(i as int).reverse().last() == orig.skip(i as int)[0]);
            assert(orig.skip(i as int)[0] == orig[i as int]);
            assert(rev@ =~= orig.skip(i as int + 1).reverse());
        }
        if bookmark_row_visible_ok(&x) {
            match map_bookmark_row(x) {
                Some(b) => out.push(b),
                None => {},
            }
        }
        proof {
            let t = orig.take(i as int + 1);
            assert(t.drop_last() =~= orig.take(i as int));
            assert(t.last() == orig[i as int]);
            assert(out@ == mapped_bookmarks(t));
        }
    }
    proof {
        assert(orig.take(orig.len() as int) =~= orig);
    }
    out
}

/// Maps every raw row to a vocabulary entry, keeping row order.
pub fn map_vocab_rows(rows: Vec<Vec<RawValue>>) -> (r: Vec<KoboVocabulary>)
    ensures
        r@ == mapped_vocab(rows@),
{
    let ghost orig = rows@;
    let mut rev = reversed(rows);
    let mut out: Vec<KoboVocabulary> = Vec::new();
    proof {
        assert(orig.skip(0) =~= orig);
        assert(orig.take(0) =~= Seq::<Vec<RawValue>>::empty());
    }
    while rev.len() > 0
        invariant
            rev@.len() <= orig.len(),
            rev@ == orig.skip((orig.len() - rev@.len()) as int).reverse(),
            out@ == mapped_vocab(orig.take((orig.len() - rev@.len()) as int)),
        decreases rev.len(),
    {
        let ghost i: int = orig.len() - rev@.len();
        let x = rev.pop().unwrap();
        proof {
            assert(x == orig.skip(i as int).reverse().last());
            assert(orig.skip(i as int).reverse().last() == orig.skip(i as int)[0]);
            assert(orig.skip(i as int)[0] == orig[i as int]);
            assert(rev@ =~= orig.skip(i as int + 1).reverse());
        }
        match map_vocab_row(x) {
            Some(v) => out.push(v),
            None => {},
        }
        proof {
            let t = orig.take(i as int + 1);
            assert(t.drop_last() =~= orig.take(i as int));
            assert(t.last() == orig[i as int]);
            assert(out@ == mapped_vocab(t));
        }
    }
    proof {
        assert(orig.take(orig.len() as int) =~= orig);
    }
    out
}

/// Every book a row sequence maps to meets the progress invariant.
pub proof fn lemma_mapped_books_wf(rows: Seq<Vec<RawValue>>)
    ensures
        forall|i: int| 0 <= i < mapped_books(rows).len() ==> wf_book(#[trigger] mapped_books(rows)[i]),
    decreases rows.len(),
{
    if rows.len() > 0 {
        lemma_mapped_books_wf(rows.drop_last());
        let init = mapped_books(rows.drop_last());
        let last = rows.last()@;
        if book_row_selected(last) && spec_book_of(last) is Some {
            let b = spec_book_of(last)->Some_0;
            assert(wf_book(b));
            assert forall|i: int| 0 <= i < mapped_books(rows).len() implies wf_book(
                mapped_books(rows)[i],
            ) by {
                if i < init.len() {
                    assert(mapped_books(rows)[i] == init[i]);
                } else {
                    assert(mapped_books(rows)[i] == b);
                }
            }
        } else {
            assert(mapped_books(rows) == init);
        }
    }
}

/// Every bookmark a row sequence maps to meets the progress invariant.
pub proof fn lemma_mapped_bookmarks_wf(rows: Seq<Vec<RawValue>>)
    ensures
        forall|i: int|
            0 <= i < mapped_bookmarks(rows).len() ==> wf_bookmark(
                #[trigger] mapped_bookmarks(rows)[i],
            ),
    decreases rows.len(),
{
    if rows.len() > 0 {
        lemma_mapped_bookmarks_wf(rows.drop_last());
        let init = mapped_bookmarks(rows.drop_last());
        let last = rows.last()@;
        if bookmark_row_visible(last) && spec_bookmark_of(last) is Some {
            let b = spec_bookmark_of(last)->Some_0;
            assert(wf_bookmark(b));
            assert forall|i: int| 0 <= i < mapped_bookmarks(rows).len() implies wf_bookmark(
                mapped_bookmarks(rows)[i],
            ) by {
                if i < init.len() {
                    assert(mapped_bookmarks(rows)[i] == init[i]);
                } else {
                    assert(mapped_bookmarks(rows)[i] == b);
                }
            }
        } else {
            assert(mapped_bookmarks(rows) == init);
        }
    }
}

/// A permutation keeps membership: every element of `b` occurs in `a`.
pub proof fn lemma_permutation_membership<T>(a: Seq<T>, b: Seq<T>)
    requires
        a.to_multiset() == b.to_multiset(),
    ensures
        forall|i: int| 0 <= i < b.len() ==> a.contains(#[trigger] b[i]),
{
    broadcast use vstd::seq_lib::group_to_multiset_ensures;

    assert forall|i: int| 0 <= i < b.len() implies a.contains(b[i]) by {
        assert(b.contains(b[i]));
        assert(b.to_multiset().count(b[i]) > 0);
    }
}

/// The book reader: keeps rows with a book content-type code, maps them
/// (dropping rows missing a required field), and orders the result by
/// last-read time, most recent first, never-read books last.
pub fn books_from_rows(rows: Vec<Vec<RawValue>>) -> (r: Vec<KoboBook>)
    ensures
        sorted_desc(r@),
        r@.to_multiset() == mapped_books(rows@).to_multiset(),
        r@.len() == mapped_books(rows@).len(),
        forall|i: int| 0 <= i < r@.len() ==> wf_book(#[trigger] r@[i]),
{
    let mapped = map_book_rows(rows);
    let ghost m = mapped@;
    let r = sort_by_key_desc(mapped);
    proof {
        lemma_mapped_books_wf(rows@);
        lemma_permutation_membership(m, r@);
    }
    r
}

/// The event reader: maps rows (dropping rows missing a required
/// field), orders by occurrence time, most recent first, and keeps the
/// most recent `EVENT_LIMIT` entries.
pub fn events_from_rows(rows: Vec<Vec<RawValue>>) -> (r: Vec<KoboEvent>)
    ensures
        sorted_desc(r@),
        r@.len() <= EVENT_LIMIT as int,
        r@.len() == vstd::math::min(EVENT_LIMIT as int, mapped_events(rows@).len() as int),
        exists|s: Seq<KoboEvent>|
            s.to_multiset() == mapped_events(rows@).to_multiset() && sorted_desc(s) && r@
                == capped(s, EVENT_LIMIT as int),
{
    let mapped = map_event_rows(rows);
    let sorted = sort_by_key_desc(mapped);
    let ghost s = sorted@;
    let r = take_prefix(sorted, EVENT_LIMIT);
    proof {
        lemma_sorted_prefix::<KoboEvent>(s, EVENT_LIMIT as int);
        assert(s.to_multiset() == mapped_events(rows@).to_multiset() && sorted_desc(s) && r@
            == capped(s, EVENT_LIMIT as int));
    }
    r
}

/// The bookmark reader: keeps rows whose hidden flag is the text
/// `false`, maps them (dropping rows missing a required field), and
/// orders by creation time, most recent first.
pub fn bookmarks_from_rows(rows: Vec<Vec<RawValue>>) -> (r: Vec<KoboBookmark>)
    ensures
        sorted_desc(r@),
        r@.to_multiset() == mapped_bookmarks(rows@).to_multiset(),
        r@.len() == mapped_bookmarks(rows@).len(),
        forall|i: int| 0 <= i < r@.len() ==> wf_bookmark(#[trigger] r@[i]),
{
    let mapped = map_bookmark_rows(rows);
    let ghost m = mapped@;
    let r = sort_by_key_desc(mapped);
    proof {
        lemma_mapped_bookmarks_wf(rows@);
        lemma_permutation_membership(m, r@);
    }
    r
}

/// The vocabulary reader: maps rows (dropping rows missing a required
/// field), orders by creation time, most recent first, and keeps the
/// most recent `VOCABULARY_LIMIT` entries.
pub fn vocabulary_from_rows(rows: Vec<Vec<RawValue>>) -> (r: Vec<KoboVocabulary>)
    ensures
        sorted_desc(r@),
        r@.len() <= VOCABULARY_LIMIT as int,
        r@.len() == vstd::math::min(VOCABULARY_LIMIT as int, mapped_vocab(rows@).len() as int),
        exists|s: Seq<KoboVocabulary>|
            s.to_multiset() == mapped_vocab(rows@).to_multiset() && sorted_desc(s) && r@
                == capped(s, VOCABULARY_LIMIT as int),
{
    let mapped = map_vocab_rows(rows);
    let sorted = sort_by_key_desc(mapped);
    let ghost s = sorted@;
    let r = take_prefix(sorted, VOCABULARY_LIMIT);
    proof {
        lemma_sorted_prefix::<KoboVocabulary>(s, VOCABULARY_LIMIT as int);
        assert(s.to_multiset() == mapped_vocab(rows@).to_multiset() && sorted_desc(s) && r@
            == capped(s, VOCABULARY_LIMIT as int));
    }
    r
}

} // verus!
