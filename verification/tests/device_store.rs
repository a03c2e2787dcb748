use rusqlite::Connection;
use stomy::errors::KoboError;

/// Builds a device root whose `.kobo/KoboReader.sqlite` is created by
/// `populate`, and returns the root directory handle.
fn device_root(populate: impl FnOnce(&Connection)) -> tempfile::TempDir {
    let root = tempfile::tempdir().expect("temp device root");
    let kobo_dir = tempfile::Builder::new()
        .prefix(".kobo")
        .rand_bytes(0)
        .tempdir_in(root.path())
        .expect(".kobo directory");
    let db_path = kobo_dir.path().join("KoboReader.sqlite");
    let conn = Connection::open(&db_path).expect("create database");
    populate(&conn);
    drop(conn);
    // Keep the directory: the handle would remove it when dropped.
    std::mem::forget(kobo_dir);
    root
}

fn full_schema(conn: &Connection) {
    conn.execute_batch(
        "CREATE TABLE content (
            ContentID TEXT, ISBN TEXT, Title TEXT, Attribution TEXT,
            Description TEXT, Publisher TEXT, Language TEXT,
            ___PercentRead REAL, ReadStatus INTEGER, TimeSpentReading INTEGER,
            DateLastRead TEXT, MimeType TEXT, ContentType INTEGER, ___UserID TEXT
        );
        CREATE TABLE Event (
            Id INTEGER, ContentID TEXT, Type INTEGER, Count INTEGER,
            LastOccurrence TEXT, ExtraData BLOB
        );
        CREATE TABLE Bookmark (
            BookmarkID TEXT, VolumeID TEXT, ContentID TEXT, Text TEXT,
            Annotation TEXT, ChapterProgress REAL, StartContainerPath TEXT,
            StartOffset INTEGER, EndContainerPath TEXT, EndOffset INTEGER,
            DateCreated TEXT, DateModified TEXT, Type TEXT, Hidden TEXT
        );
        CREATE TABLE WordList (Text TEXT, VolumeID TEXT, DateCreated TEXT);

        INSERT INTO content VALUES
            ('b1', 'ISBN-A', 'Harry Potter', 'J. K. Rowling', NULL, NULL, 'en',
             54.5, 1, 120, '2023-06-15T10:00:00Z', 'application/epub+zip', 6, NULL),
            ('b2', NULL, 'Older Book', NULL, NULL, NULL, NULL,
             NULL, NULL, NULL, '2020-01-01T00:00:00Z', 'application/epub+zip', 9, NULL),
            ('b3', NULL, 'Not A Book', NULL, NULL, NULL, NULL,
             0, 0, 0, NULL, 'text/plain', 5, NULL);

        INSERT INTO Event VALUES
            (1, 'b1', 3, 2, '2023-06-15T09:00:00Z', NULL),
            (2, 'b1', 3, 1, '2023-06-16T09:00:00Z', x'0102');

        INSERT INTO Bookmark VALUES
            ('m1', 'b1', 'b1', 'quoted text', 'a note', 0.5, NULL, NULL, NULL, NULL,
             '2023-06-10T00:00:00Z', NULL, 'highlight', 'false'),
            ('m2', 'b1', 'b1', 'hidden text', NULL, 0.9, NULL, NULL, NULL, NULL,
             '2023-06-11T00:00:00Z', NULL, 'highlight', 'true');

        INSERT INTO WordList VALUES
            ('sesquipedalian', 'b1', '2023-05-01T00:00:00Z'),
            ('haruspex', 'b1', '2023-05-02T00:00:00Z');",
    )
    .expect("populate schema");
}

#[test]
fn snapshot_from_real_store() {
    let root = device_root(full_schema);
    let data = stomy::db::get_kobo_library_data(root.path().to_str().unwrap().to_string())
        .expect("snapshot");

    let ids: Vec<&str> = data.books.iter().map(|b| b.content_id.as_str()).collect();
    assert_eq!(ids, vec!["b1", "b2"]);
    let b1 = &data.books[0];
    assert_eq!(b1.isbn.as_deref(), Some("ISBN-A"));
    assert_eq!(b1.percent_read_hundredths, 5450);
    assert_eq!(b1.read_status, 1);
    assert_eq!(b1.time_spent_reading, 120);
    assert_eq!(b1.content_type, "6");
    let b2 = &data.books[1];
    assert_eq!(b2.percent_read_hundredths, 0);
    assert_eq!(b2.read_status, 0);
    assert_eq!(b2.time_spent_reading, 0);

    assert_eq!(data.events.len(), 2);
    assert_eq!(data.events[0].id, 2);
    assert_eq!(data.events[0].extra_data.as_deref(), Some(&[1u8, 2u8][..]));
    assert_eq!(data.events[1].id, 1);

    assert_eq!(data.bookmarks.len(), 1);
    assert_eq!(data.bookmarks[0].bookmark_id, "m1");
    assert_eq!(data.bookmarks[0].chapter_progress_hundredths, 50);
    assert_eq!(data.bookmarks[0].annotation.as_deref(), Some("a note"));

    assert_eq!(data.vocabulary.len(), 2);
    assert_eq!(data.vocabulary[0].text, "haruspex");
    assert_eq!(data.vocabulary[1].text, "sesquipedalian");

    assert!(!data.last_sync.is_empty());
}

#[test]
fn missing_table_fails_whole_snapshot() {
    let root = device_root(|conn| {
        conn.execute_batch(
            "CREATE TABLE content (
                ContentID TEXT, ISBN TEXT, Title TEXT, Attribution TEXT,
                Description TEXT, Publisher TEXT, Language TEXT,
                ___PercentRead REAL, ReadStatus INTEGER, TimeSpentReading INTEGER,
                DateLastRead TEXT, MimeType TEXT, ContentType INTEGER, ___UserID TEXT
            );",
        )
        .expect("partial schema");
    });
    let r = stomy::db::get_kobo_library_data(root.path().to_str().unwrap().to_string());
    assert_eq!(r.unwrap_err(), KoboError::QueryFailure);
}

#[test]
fn query_failure_when_table_absent() {
    let root = device_root(|_| {});
    let r = stomy::db::get_kobo_books(root.path().to_str().unwrap().to_string());
    assert_eq!(r.unwrap_err(), KoboError::QueryFailure);
}

#[test]
fn find_book_on_real_store() {
    let root = device_root(full_schema);
    let device = root.path().to_str().unwrap().to_string();

    let by_isbn = stomy::db::get_book_progress(device.clone(), Some("ISBN-A".to_string()), None)
        .expect("lookup ok")
        .expect("found");
    assert_eq!(by_isbn.content_id, "b1");
    assert_eq!(by_isbn.isbn.as_deref(), Some("ISBN-A"));

    let by_title = stomy::db::get_book_progress(device.clone(), None, Some("Harry".to_string()))
        .expect("lookup ok")
        .expect("found");
    assert_eq!(by_title.content_id, "b1");
    assert!(by_title.title.contains("Harry"));

    let none = stomy::db::get_book_progress(device, Some("ISBN-Z".to_string()), None)
        .expect("lookup ok");
    assert!(none.is_none());
}
