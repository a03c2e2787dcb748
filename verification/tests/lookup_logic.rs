use stomy::errors::KoboError;
use stomy::lookup::find_book_in_rows;
use stomy::raw::RawValue;

fn text(s: &str) -> RawValue {
    RawValue::Text(s.to_string())
}

fn content_row(cid: &str, isbn: Option<&str>, title: &str) -> Vec<RawValue> {
    vec![
        text(cid),
        match isbn {
            Some(s) => text(s),
            None => RawValue::Null,
        },
        text(title),
        RawValue::Null,
        RawValue::Null,
        RawValue::Null,
        RawValue::Null,
        RawValue::Int(0),
        RawValue::Int(0),
        RawValue::Int(0),
        RawValue::Null,
        text("application/epub+zip"),
        RawValue::Int(6),
        text("6"),
        RawValue::Null,
    ]
}

#[test]
fn find_by_isbn_exact_match() {
    let rows = vec![
        content_row("c1", Some("ISBN-B"), "Other"),
        content_row("c2", Some("ISBN-A"), "Wanted"),
        content_row("c3", Some("ISBN-A"), "Duplicate"),
    ];
    let r = find_book_in_rows(rows, &Some("ISBN-A".to_string()), &None).unwrap();
    let book = r.expect("a book should match");
    assert_eq!(book.content_id, "c2");
    assert_eq!(book.isbn.as_deref(), Some("ISBN-A"));
}

#[test]
fn find_by_isbn_no_match_is_empty() {
    let rows = vec![content_row("c1", Some("ISBN-B"), "Other")];
    let r = find_book_in_rows(rows, &Some("ISBN-A".to_string()), &None).unwrap();
    assert!(r.is_none());
}

#[test]
fn find_by_title_substring_case_sensitive() {
    let rows = vec![
        content_row("c1", None, "harry lowercase"),
        content_row("c2", None, "Harry Potter"),
    ];
    let r = find_book_in_rows(rows, &None, &Some("Harry".to_string())).unwrap();
    let book = r.expect("a book should match");
    assert_eq!(book.content_id, "c2");
    assert!(book.title.contains("Harry"));
}

#[test]
fn find_title_no_substring_is_empty() {
    let rows = vec![content_row("c1", None, "Something Else")];
    let r = find_book_in_rows(rows, &None, &Some("Harry".to_string())).unwrap();
    assert!(r.is_none());
}

#[test]
fn find_isbn_takes_precedence_over_title() {
    let rows = vec![
        content_row("by-title", None, "Harry Potter"),
        content_row("by-isbn", Some("ISBN-A"), "Unrelated"),
    ];
    let r = find_book_in_rows(
        rows,
        &Some("ISBN-A".to_string()),
        &Some("Harry".to_string()),
    )
    .unwrap();
    assert_eq!(r.unwrap().content_id, "by-isbn");
}

#[test]
fn find_without_keys_is_invalid() {
    let rows = vec![content_row("c1", None, "Anything")];
    let r = find_book_in_rows(rows, &None, &None);
    assert_eq!(r.unwrap_err(), KoboError::InvalidLookupArgs);
}

#[test]
fn lookup_without_keys_rejected_before_any_read() {
    let r = stomy::db::get_book_progress("/no/such/device".to_string(), None, None);
    assert_eq!(r.unwrap_err(), KoboError::InvalidLookupArgs);
}
