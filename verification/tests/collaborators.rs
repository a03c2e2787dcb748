use stomy::convert::{
    choose_converter, summarize_batch, ConversionResult, ConverterInfo,
};
use stomy::issues::{
    auth_status_from_output, issue_result_from_url, parse_issue_number, validate_issue_args,
    IssueArgError,
};

fn info(name: &str) -> ConverterInfo {
    ConverterInfo {
        available: true,
        converter: name.to_string(),
        version: Some("1.0".to_string()),
        path: Some(format!("/usr/bin/{}", name)),
    }
}

#[test]
fn converter_preference_calibre_first() {
    let chosen = choose_converter(Some(info("calibre")), Some(info("pandoc")));
    assert_eq!(chosen.converter, "calibre");
    let fallback = choose_converter(None, Some(info("pandoc")));
    assert_eq!(fallback.converter, "pandoc");
    let none = choose_converter(None, None);
    assert!(!none.available);
    assert_eq!(none.converter, "none");
    assert!(none.version.is_none());
    assert!(none.path.is_none());
}

fn ok_result(path: &str) -> ConversionResult {
    ConversionResult { success: true, output_path: Some(path.to_string()), error: None }
}

fn failed_result(msg: Option<&str>) -> ConversionResult {
    ConversionResult { success: false, output_path: None, error: msg.map(|m| m.to_string()) }
}

#[test]
fn batch_summary_counts_and_collects() {
    let outcomes = vec![
        ("a.epub".to_string(), ok_result("a.pdf")),
        ("b.epub".to_string(), failed_result(Some("boom"))),
        ("c.epub".to_string(), ok_result("c.pdf")),
        ("d.epub".to_string(), failed_result(None)),
    ];
    let summary = summarize_batch(outcomes);
    assert!(!summary.success);
    assert_eq!(summary.converted, 2);
    assert_eq!(summary.failed, 2);
    assert_eq!(summary.output_paths, vec!["a.pdf".to_string(), "c.pdf".to_string()]);
    assert_eq!(summary.errors.len(), 2);
    assert_eq!(summary.errors[0].file, "b.epub");
    assert_eq!(summary.errors[0].error, "boom");
    assert_eq!(summary.errors[1].file, "d.epub");
    assert_eq!(summary.errors[1].error, "Unknown error");
}

#[test]
fn batch_summary_all_ok_is_success() {
    let outcomes = vec![("a.epub".to_string(), ok_result("a.pdf"))];
    let summary = summarize_batch(outcomes);
    assert!(summary.success);
    assert_eq!(summary.converted, 1);
    assert_eq!(summary.failed, 0);
    assert!(summary.errors.is_empty());
}

#[test]
fn issue_args_validation() {
    assert_eq!(validate_issue_args("", "t"), Err(IssueArgError::EmptyRepo));
    assert_eq!(validate_issue_args("owner/repo", ""), Err(IssueArgError::EmptyTitle));
    assert_eq!(validate_issue_args("ownerrepo", "t"), Err(IssueArgError::RepoFormat));
    assert_eq!(validate_issue_args("owner/repo", "t"), Ok(()));
    assert_eq!(
        IssueArgError::EmptyRepo.message(),
        "Repository cannot be empty"
    );
    assert_eq!(IssueArgError::EmptyTitle.message(), "Title cannot be empty");
    assert_eq!(
        IssueArgError::RepoFormat.message(),
        "Repository must be in format 'owner/repo'"
    );
}

#[test]
fn issue_number_from_url() {
    assert_eq!(parse_issue_number("https://github.com/o/r/issues/123"), Some(123));
    assert_eq!(parse_issue_number("https://github.com/o/r/issues/"), None);
    assert_eq!(parse_issue_number("https://github.com/o/r/issues/12a"), None);
    assert_eq!(parse_issue_number("nonumber"), None);
    assert_eq!(parse_issue_number("17"), Some(17));
    assert_eq!(parse_issue_number("a/+7"), Some(7));
    assert_eq!(parse_issue_number("a/4294967295"), Some(u32::MAX));
    assert_eq!(parse_issue_number("a/4294967296"), None);

    let r = issue_result_from_url("https://github.com/o/r/issues/55".to_string()).unwrap();
    assert_eq!(r.number, 55);
    assert_eq!(r.url, "https://github.com/o/r/issues/55");
    assert!(issue_result_from_url("https://github.com/o/r/issues/x".to_string()).is_none());
}

#[test]
fn auth_verdict_from_cli_output() {
    let missing = auth_status_from_output(false, true, "", None);
    assert!(!missing.authenticated);
    assert!(missing.user.is_none() && missing.scopes.is_none());

    let logged_out = auth_status_from_output(true, true, "You are not logged in to any hosts", None);
    assert!(!logged_out.authenticated);

    let failed = auth_status_from_output(true, false, "", None);
    assert!(!failed.authenticated);

    let ok = auth_status_from_output(
        true,
        true,
        "Logged in to github.com as octocat (keyring)\nToken scopes: repo",
        Some("octocat".to_string()),
    );
    assert!(ok.authenticated);
    assert_eq!(ok.user.as_deref(), Some("octocat"));
    assert_eq!(
        ok.scopes,
        Some(vec!["repo".to_string(), "write:project".to_string()])
    );

    let no_scopes = auth_status_from_output(true, true, "Logged in, nothing else", None);
    assert!(no_scopes.authenticated);
    assert!(no_scopes.scopes.is_none());
}

#[test]
fn login_user_extracted_from_diagnostics() {
    // The piece after the separator is kept as the CLI printed it; only
    // a literal trailing " (" pair and surrounding whitespace go.
    let out = "github.com\n  \u{2713} Logged in to github.com as octocat (keyring)\n  - Token scopes: repo\n";
    assert_eq!(
        stomy::issues::extract_login_user(out).as_deref(),
        Some("octocat (keyring)")
    );
    assert_eq!(stomy::issues::extract_login_user("nothing relevant"), None);
    let trailing = "Logged in to github.com as bob (";
    assert_eq!(
        stomy::issues::extract_login_user(trailing).as_deref(),
        Some("bob")
    );
    let crlf = "x\r\nLogged in to github.com as someone\r\ny";
    assert_eq!(
        stomy::issues::extract_login_user(crlf).as_deref(),
        Some("someone")
    );
}

#[test]
fn conversion_source_validation() {
    let missing = stomy::convert::validate_conversion_source("a/b.epub", false, true).unwrap();
    assert!(!missing.success);
    assert_eq!(missing.error.as_deref(), Some("EPUB file not found: a/b.epub"));

    let wrong_ext = stomy::convert::validate_conversion_source("a/b.txt", true, false).unwrap();
    assert_eq!(wrong_ext.error.as_deref(), Some("Input file must be an EPUB file"));

    assert!(stomy::convert::validate_conversion_source("a/b.epub", true, true).is_none());
}

#[test]
fn converter_selection_by_name() {
    assert!(matches!(
        stomy::convert::select_converter("calibre"),
        stomy::convert::SelectedConverter::Calibre
    ));
    assert!(matches!(
        stomy::convert::select_converter("pandoc"),
        stomy::convert::SelectedConverter::Pandoc
    ));
    match stomy::convert::select_converter("wordpad") {
        stomy::convert::SelectedConverter::Unknown(c) => {
            assert!(!c.success);
            assert_eq!(c.error.as_deref(), Some("Unknown converter: wordpad"));
        }
        _ => panic!("expected an unknown converter"),
    }
}
