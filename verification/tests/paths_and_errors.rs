use stomy::errors::KoboError;
use stomy::paths::get_kobo_db_path;

#[test]
fn test_db_path() {
    let path = get_kobo_db_path("/Volumes/KOBOeReader");
    assert_eq!(path, "/Volumes/KOBOeReader/.kobo/KoboReader.sqlite");
}

#[test]
fn resolves_fixed_relative_location() {
    assert_eq!(get_kobo_db_path("/mnt/kobo"), "/mnt/kobo/.kobo/KoboReader.sqlite");
}

#[test]
fn resolves_empty_root() {
    assert_eq!(get_kobo_db_path(""), "/.kobo/KoboReader.sqlite");
}

#[test]
fn open_failure_when_file_absent() {
    let r = stomy::db::get_kobo_books("/no/such/device/root".to_string());
    assert_eq!(r.unwrap_err(), KoboError::DatabaseOpenFailure);
}

#[test]
fn open_failure_for_every_reader() {
    let root = "/no/such/device/root".to_string();
    assert_eq!(stomy::db::get_kobo_events(root.clone()).unwrap_err(), KoboError::DatabaseOpenFailure);
    assert_eq!(stomy::db::get_kobo_bookmarks(root.clone()).unwrap_err(), KoboError::DatabaseOpenFailure);
    assert_eq!(stomy::db::get_kobo_vocabulary(root.clone()).unwrap_err(), KoboError::DatabaseOpenFailure);
    assert_eq!(stomy::db::get_kobo_library_data(root).unwrap_err(), KoboError::DatabaseOpenFailure);
}

#[test]
fn error_messages() {
    assert_eq!(KoboError::DatabaseOpenFailure.message(), "Failed to open Kobo database");
    assert_eq!(KoboError::QueryFailure.message(), "Failed to query Kobo database");
    assert_eq!(KoboError::InvalidLookupArgs.message(), "Either ISBN or title must be provided");
}
