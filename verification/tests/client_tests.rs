use lrcget::catalog::get_order_clause;
use lrcget::lrc_format::{synced_lyrics_to_sylt_vec, LrcParseError};
use lrcget::lrclib::{
    api_endpoint, classify_challenge_status, classify_get_status, classify_post_status,
    classify_search_status, not_found_error, retry_decision, search_query_params, unknown_error,
    ResponseError, RetryDecision, StatusOutcome,
};
use lrcget::lyrics::GetLyricsError;
use lrcget::response::{raw_response_is_empty, RawResponse, Response};
use lrcget::workflow::{
    choose_lyrics_update, download_action, publish_token, should_skip_download, DownloadAction,
    LyricsUpdate,
};

#[test]
fn get_statuses() {
    assert_eq!(classify_get_status(200), StatusOutcome::Success);
    assert_eq!(classify_get_status(404), StatusOutcome::NotFoundMiss);
    assert_eq!(classify_get_status(400), StatusOutcome::RemoteRejection);
    assert_eq!(classify_get_status(500), StatusOutcome::RemoteRejection);
    assert_eq!(classify_get_status(503), StatusOutcome::RemoteRejection);
    assert_eq!(classify_get_status(418), StatusOutcome::UnknownStatus);
}

#[test]
fn search_statuses() {
    assert_eq!(classify_search_status(200), StatusOutcome::Success);
    assert_eq!(classify_search_status(404), StatusOutcome::UnknownStatus);
    assert_eq!(classify_search_status(503), StatusOutcome::RemoteRejection);
}

#[test]
fn challenge_statuses() {
    assert_eq!(classify_challenge_status(200), StatusOutcome::Success);
    assert_eq!(classify_challenge_status(400), StatusOutcome::RemoteRejection);
    assert_eq!(classify_challenge_status(201), StatusOutcome::UnknownStatus);
}

#[test]
fn post_statuses() {
    assert_eq!(classify_post_status(201), StatusOutcome::Success);
    assert_eq!(classify_post_status(200), StatusOutcome::UnknownStatus);
    assert_eq!(classify_post_status(500), StatusOutcome::RemoteRejection);
}

#[test]
fn retry_rules() {
    assert_eq!(retry_decision(0, false), RetryDecision::FailNow);
    assert_eq!(retry_decision(0, true), RetryDecision::RetryAfter(1000));
    assert_eq!(retry_decision(1, true), RetryDecision::RetryAfter(2000));
    assert_eq!(retry_decision(2, true), RetryDecision::GiveUp);
}

#[test]
fn endpoint_trims_trailing_slashes() {
    assert_eq!(api_endpoint("https://lrclib.net/", "/api/search"), "https://lrclib.net/api/search");
    assert_eq!(api_endpoint("https://lrclib.net///", "/api/get"), "https://lrclib.net/api/get");
    assert_eq!(api_endpoint("https://lrclib.net", "/api/get"), "https://lrclib.net/api/get");
}

#[test]
fn search_params_keep_order_and_skip_empty() {
    let params = search_query_params("Song", "Artist", "", "free text");
    let expected: Vec<(String, String)> = vec![
        ("track_name".to_owned(), "Song".to_owned()),
        ("artist_name".to_owned(), "Artist".to_owned()),
        ("q".to_owned(), "free text".to_owned()),
    ];
    assert_eq!(params, expected);
}

#[test]
fn search_params_all_empty() {
    assert_eq!(search_query_params("", "", "", ""), Vec::<(String, String)>::new());
}

#[test]
fn error_bodies() {
    let u = unknown_error();
    assert_eq!(u.status_code, None);
    assert_eq!(u.error, "UnknownError");
    assert_eq!(u.message, "Unknown error happened");
    let n = not_found_error();
    assert_eq!(n.status_code, Some(404));
    assert_eq!(n.error, "NotFound");
    assert_eq!(n.message, "There is no lyrics for this track");
}

#[test]
fn error_description() {
    let e = ResponseError {
        status_code: Some(400),
        error: "BadRequest".to_owned(),
        message: "missing field".to_owned(),
    };
    assert_eq!(e.describe(), "BadRequest: missing field");
}

#[test]
fn not_found_message() {
    assert_eq!(
        GetLyricsError::NotFound.message(),
        "This track does not exist in LRCLIB database"
    );
}

#[test]
fn raw_emptiness() {
    let empty = RawResponse { plain_lyrics: None, synced_lyrics: None, instrumental: false };
    assert!(raw_response_is_empty(&empty));
    let inst = RawResponse { plain_lyrics: None, synced_lyrics: None, instrumental: true };
    assert!(!raw_response_is_empty(&inst));
}

#[test]
fn raw_normalization() {
    let raw = RawResponse {
        plain_lyrics: None,
        synced_lyrics: Some("[00:01.00] hey".to_owned()),
        instrumental: false,
    };
    match Response::from_raw_response(raw) {
        Response::SyncedLyrics(s, p) => {
            assert_eq!(s, "[00:01.00] hey");
            assert_eq!(p, "hey");
        },
        _ => panic!("expected synced lyrics"),
    }
    let none = RawResponse { plain_lyrics: None, synced_lyrics: None, instrumental: false };
    assert!(matches!(Response::from_raw_response(none), Response::NoLyrics));
}

#[test]
fn publish_tokens() {
    assert_eq!(publish_token("abc", 12345), "abc:12345");
    assert_eq!(publish_token("p", 0), "p:0");
}

#[test]
fn skip_download_only_for_real_synced() {
    assert!(should_skip_download(&Some("[00:01.00] la".to_owned())));
    assert!(!should_skip_download(&Some("[au: instrumental]".to_owned())));
    assert!(!should_skip_download(&None));
}

#[test]
fn download_actions() {
    let synced = Response::SyncedLyrics("s".to_owned(), "p".to_owned());
    assert_eq!(download_action(&synced, true), DownloadAction::UpdateSynced);
    let plain = Response::UnsyncedLyrics("p".to_owned());
    assert_eq!(download_action(&plain, true), DownloadAction::SkipExistingPlain);
    assert_eq!(download_action(&plain, false), DownloadAction::UpdatePlain);
    assert_eq!(download_action(&Response::IsInstrumental, false), DownloadAction::MarkInstrumental);
    assert_eq!(download_action(&Response::NoLyrics, false), DownloadAction::ReportNotFound);
}

#[test]
fn lyrics_updates() {
    assert_eq!(choose_lyrics_update("p", "[au: instrumental]"), LyricsUpdate::SetInstrumental);
    assert_eq!(choose_lyrics_update("p", "[00:01.00] la"), LyricsUpdate::SetSynced);
    assert_eq!(choose_lyrics_update("p", ""), LyricsUpdate::SetPlain);
    assert_eq!(choose_lyrics_update("", ""), LyricsUpdate::ClearLyrics);
}

#[test]
fn order_clauses() {
    assert_eq!(get_order_clause("title", "asc"), "ORDER BY title_lower ASC");
    assert_eq!(get_order_clause("duration", "desc"), "ORDER BY duration DESC");
    assert_eq!(get_order_clause("anything", "sideways"), "ORDER BY title_lower ASC");
    assert_eq!(
        get_order_clause("lyrics_status", "asc"),
        "ORDER BY CASE WHEN lrc_lyrics IS NOT NULL AND lrc_lyrics != '[au: instrumental]' THEN 0 WHEN txt_lyrics IS NOT NULL THEN 1 WHEN instrumental = 1 THEN 2 ELSE 3 END ASC"
    );
}

#[test]
fn sylt_entries_from_lines() {
    let v = synced_lyrics_to_sylt_vec("[01:02.03] Hi\n[00:00.50]there").unwrap();
    assert_eq!(v, vec![(62_030, "Hi".to_owned()), (500, "there".to_owned())]);
}

#[test]
fn sylt_skips_empty_lines() {
    let v = synced_lyrics_to_sylt_vec("[00:01.00] a\n\n[00:02.00] b\n").unwrap();
    assert_eq!(v, vec![(1_000, "a".to_owned()), (2_000, "b".to_owned())]);
}

#[test]
fn sylt_rejects_untagged_lines() {
    assert_eq!(synced_lyrics_to_sylt_vec("no tag here"), Err(LrcParseError::InvalidLine));
    assert_eq!(synced_lyrics_to_sylt_vec("[0:0.00] short"), Err(LrcParseError::InvalidLine));
}

#[test]
fn sylt_single_minute_digit() {
    let v = synced_lyrics_to_sylt_vec("[1:30.25] mid").unwrap();
    assert_eq!(v, vec![(90_250, "mid".to_owned())]);
}
