use stomy::raw::RawValue;
use stomy::readers::{books_from_rows, bookmarks_from_rows, events_from_rows, vocabulary_from_rows};

fn text(s: &str) -> RawValue {
    RawValue::Text(s.to_string())
}

fn opt_text(s: Option<&str>) -> RawValue {
    match s {
        Some(v) => RawValue::Text(v.to_string()),
        None => RawValue::Null,
    }
}

fn opt_int(v: Option<i64>) -> RawValue {
    match v {
        Some(n) => RawValue::Int(n),
        None => RawValue::Null,
    }
}

fn book_row(
    cid: &str,
    title: &str,
    percent_hundredths: Option<i64>,
    status: Option<i64>,
    date: Option<&str>,
    ctype: i64,
) -> Vec<RawValue> {
    vec![
        text(cid),
        RawValue::Null,
        text(title),
        RawValue::Null,
        RawValue::Null,
        RawValue::Null,
        RawValue::Null,
        opt_int(percent_hundredths),
        opt_int(status),
        RawValue::Null,
        opt_text(date),
        text("application/epub+zip"),
        RawValue::Int(ctype),
        text(&ctype.to_string()),
        RawValue::Null,
    ]
}

fn event_row(id: i64, occurrence: &str) -> Vec<RawValue> {
    vec![
        RawValue::Int(id),
        text("book-1"),
        RawValue::Int(3),
        RawValue::Int(1),
        text(occurrence),
        RawValue::Null,
    ]
}

fn bookmark_row(id: &str, chapter_hundredths: Option<i64>, created: &str, hidden: &str) -> Vec<RawValue> {
    vec![
        text(id),
        text("vol-1"),
        text("book-1"),
        text("highlighted words"),
        RawValue::Null,
        opt_int(chapter_hundredths),
        RawValue::Null,
        RawValue::Null,
        RawValue::Null,
        RawValue::Null,
        text(created),
        RawValue::Null,
        text("highlight"),
        text(hidden),
    ]
}

fn vocab_row(word: &str, created: &str) -> Vec<RawValue> {
    vec![text(word), text("vol-1"), text(created)]
}

#[test]
fn books_filtered_by_content_type_code() {
    let rows = vec![
        book_row("a", "A", Some(0), Some(0), None, 6),
        book_row("b", "B", Some(0), Some(0), None, 5),
        book_row("c", "C", Some(0), Some(0), None, 9),
        book_row("d", "D", Some(0), Some(0), None, 99),
    ];
    let books = books_from_rows(rows);
    let ids: Vec<&str> = books.iter().map(|b| b.content_id.as_str()).collect();
    assert_eq!(ids.len(), 2);
    assert!(ids.contains(&"a"));
    assert!(ids.contains(&"c"));
}

#[test]
fn books_sorted_by_last_read_desc_nulls_last() {
    let rows = vec![
        book_row("old", "Old", Some(0), Some(0), Some("2020-01-01T00:00:00Z"), 6),
        book_row("never", "Never", Some(0), Some(0), None, 6),
        book_row("new", "New", Some(0), Some(0), Some("2023-06-15T10:00:00Z"), 6),
    ];
    let books = books_from_rows(rows);
    let ids: Vec<&str> = books.iter().map(|b| b.content_id.as_str()).collect();
    assert_eq!(ids, vec!["new", "old", "never"]);
}

#[test]
fn book_percent_read_clamped_and_defaulted() {
    let rows = vec![
        book_row("neg", "N", Some(-50), Some(0), None, 6),
        book_row("big", "B", Some(20_000), Some(0), None, 6),
        book_row("absent", "A", None, Some(0), None, 6),
        book_row("mid", "M", Some(5_450), Some(0), None, 6),
    ];
    let books = books_from_rows(rows);
    for b in &books {
        assert!(b.percent_read_hundredths <= 10_000);
        match b.content_id.as_str() {
            "neg" => assert_eq!(b.percent_read_hundredths, 0),
            "big" => assert_eq!(b.percent_read_hundredths, 10_000),
            "absent" => assert_eq!(b.percent_read_hundredths, 0),
            "mid" => assert_eq!(b.percent_read_hundredths, 5_450),
            _ => panic!("unexpected book"),
        }
    }
    assert_eq!(books.len(), 4);
}

#[test]
fn book_read_status_defaults_to_unread() {
    let rows = vec![book_row("x", "X", Some(0), None, None, 6)];
    let books = books_from_rows(rows);
    assert_eq!(books.len(), 1);
    assert_eq!(books[0].read_status, 0);
}

#[test]
fn book_row_missing_required_field_is_dropped() {
    let mut bad = book_row("bad", "unused", Some(0), Some(0), None, 6);
    bad[2] = RawValue::Null;
    let rows = vec![bad, book_row("good", "Good", Some(0), Some(0), None, 6)];
    let books = books_from_rows(rows);
    assert_eq!(books.len(), 1);
    assert_eq!(books[0].content_id, "good");
}

#[test]
fn events_sorted_desc_and_capped_at_limit() {
    let mut rows = Vec::new();
    for i in 0..1005i64 {
        rows.push(event_row(i, &format!("2022-01-01T00:00:{:04}Z", i)));
    }
    let events = events_from_rows(rows);
    assert_eq!(events.len(), 1000);
    for w in events.windows(2) {
        assert!(w[0].last_occurrence >= w[1].last_occurrence);
    }
    assert_eq!(events[0].id, 1004);
    assert_eq!(events[999].id, 5);
}

#[test]
fn event_row_missing_required_field_is_dropped() {
    let mut bad = event_row(1, "2022-01-01T00:00:00Z");
    bad[4] = RawValue::Null;
    let rows = vec![bad, event_row(2, "2022-01-02T00:00:00Z")];
    let events = events_from_rows(rows);
    assert_eq!(events.len(), 1);
    assert_eq!(events[0].id, 2);
}

#[test]
fn bookmarks_hidden_filtered_and_sorted() {
    let rows = vec![
        bookmark_row("b1", Some(50), "2021-05-01T00:00:00Z", "false"),
        bookmark_row("b2", Some(50), "2021-06-01T00:00:00Z", "true"),
        bookmark_row("b3", Some(50), "2021-07-01T00:00:00Z", "false"),
    ];
    let bms = bookmarks_from_rows(rows);
    let ids: Vec<&str> = bms.iter().map(|b| b.bookmark_id.as_str()).collect();
    assert_eq!(ids, vec!["b3", "b1"]);
}

#[test]
fn bookmark_chapter_progress_clamped_and_defaulted() {
    let rows = vec![
        bookmark_row("neg", Some(-3), "2021-01-01T00:00:00Z", "false"),
        bookmark_row("big", Some(250), "2021-01-02T00:00:00Z", "false"),
        bookmark_row("absent", None, "2021-01-03T00:00:00Z", "false"),
        bookmark_row("half", Some(50), "2021-01-04T00:00:00Z", "false"),
    ];
    let bms = bookmarks_from_rows(rows);
    assert_eq!(bms.len(), 4);
    for b in &bms {
        assert!(b.chapter_progress_hundredths <= 100);
        match b.bookmark_id.as_str() {
            "neg" => assert_eq!(b.chapter_progress_hundredths, 0),
            "big" => assert_eq!(b.chapter_progress_hundredths, 100),
            "absent" => assert_eq!(b.chapter_progress_hundredths, 0),
            "half" => assert_eq!(b.chapter_progress_hundredths, 50),
            _ => panic!("unexpected bookmark"),
        }
    }
}

#[test]
fn vocabulary_sorted_desc_and_capped_at_limit() {
    let mut rows = Vec::new();
    for i in 0..505i64 {
        rows.push(vocab_row(&format!("word{}", i), &format!("2022-01-01T00:00:{:04}Z", i)));
    }
    let words = vocabulary_from_rows(rows);
    assert_eq!(words.len(), 500);
    for w in words.windows(2) {
        assert!(w[0].date_created >= w[1].date_created);
    }
    assert_eq!(words[0].text, "word504");
}
