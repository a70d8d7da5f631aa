use lrcget::lyrics::{MatchSource, ResolveState, Resolver};
use lrcget::response::Response;
use lrcget::search::SearchItem;
use lrcget::sidecar::{apply_lyrics_for_track, SidecarState};

fn resolver(tolerance_ms: u64, fuzzy: bool) -> Resolver {
    Resolver::new(
        "Song".to_owned(),
        "Artist".to_owned(),
        "Album".to_owned(),
        200_000,
        tolerance_ms,
        fuzzy,
    )
}

fn candidate(
    id: i64,
    name: &str,
    duration_ms: u64,
    plain: Option<&str>,
    synced: Option<&str>,
) -> SearchItem {
    SearchItem {
        id,
        name: Some(name.to_owned()),
        artist_name: Some("Artist".to_owned()),
        album_name: Some("Album".to_owned()),
        duration_ms: Some(duration_ms),
        instrumental: false,
        plain_lyrics: plain.map(|s| s.to_owned()),
        synced_lyrics: synced.map(|s| s.to_owned()),
    }
}

#[test]
fn exact_match_applies_synced_and_clears_plain_sidecar() {
    // exact match found: synced payload, exact source, .lrc written, .txt removed
    let mut r = resolver(3_000, false);
    r.on_exact_result(Response::SyncedLyrics(
        "[00:10.00] la".to_owned(),
        "la".to_owned(),
    ));
    match r.state {
        ResolveState::Finished(payload, source) => {
            assert_eq!(source, MatchSource::Exact);
            let before = SidecarState {
                plain: Some("old plain".to_owned()),
                synced: None,
            };
            let after = apply_lyrics_for_track(before, &payload);
            assert_eq!(after.synced.as_deref(), Some("[00:10.00] la"));
            assert_eq!(after.plain, None);
        },
        _ => panic!("expected a finished resolution"),
    }
}

#[test]
fn zero_tolerance_finishes_without_fallback() {
    let mut r = resolver(0, true);
    r.on_exact_result(Response::NoLyrics);
    match r.state {
        ResolveState::Finished(payload, source) => {
            assert!(matches!(payload, Response::NoLyrics));
            assert_eq!(source, MatchSource::NoMatch);
        },
        _ => panic!("a zero tolerance must never reach a fallback search"),
    }
}

#[test]
fn field_search_duration_fallback() {
    // exact match absent, tolerance 3 s, one plain candidate at 202 s
    let mut r = resolver(3_000, false);
    r.on_exact_result(Response::NoLyrics);
    assert!(matches!(r.state, ResolveState::QueryFieldSearch));
    let results = vec![candidate(7, "Song", 202_000, Some("plain words"), None)];
    r.on_field_search_results(&results);
    match r.state {
        ResolveState::Finished(payload, source) => {
            assert_eq!(source, MatchSource::DurationFallback);
            assert!(matches!(payload, Response::UnsyncedLyrics(p) if p == "plain words"));
        },
        _ => panic!("expected a finished resolution"),
    }
}

#[test]
fn field_search_empty_without_fuzzy_finishes() {
    let mut r = resolver(3_000, false);
    r.on_exact_result(Response::NoLyrics);
    r.on_field_search_results(&vec![]);
    match r.state {
        ResolveState::Finished(payload, source) => {
            assert!(matches!(payload, Response::NoLyrics));
            assert_eq!(source, MatchSource::NoMatch);
        },
        _ => panic!("expected a finished resolution"),
    }
}

#[test]
fn fuzzy_search_rejects_dissimilar_title() {
    // field search empty, fuzzy candidate scores 0.25 < 0.3: excluded
    let mut r = Resolver::new(
        "alpha beta".to_owned(),
        "Artist".to_owned(),
        "Album".to_owned(),
        200_000,
        3_000,
        true,
    );
    r.on_exact_result(Response::NoLyrics);
    r.on_field_search_results(&vec![]);
    assert!(matches!(r.state, ResolveState::QueryFuzzySearch));
    let results = vec![candidate(9, "alpha gamma delta", 200_000, None, Some("[00:01.00] x"))];
    r.on_fuzzy_search_results(&results);
    match r.state {
        ResolveState::Finished(payload, source) => {
            assert!(matches!(payload, Response::NoLyrics));
            assert_eq!(source, MatchSource::NoMatch);
        },
        _ => panic!("expected a finished resolution"),
    }
}

#[test]
fn fuzzy_search_accepts_similar_title() {
    let mut r = resolver(3_000, true);
    r.on_exact_result(Response::NoLyrics);
    r.on_field_search_results(&vec![]);
    let results = vec![candidate(9, "Song", 201_000, None, Some("[00:01.00] x"))];
    r.on_fuzzy_search_results(&results);
    match r.state {
        ResolveState::Finished(payload, source) => {
            assert_eq!(source, MatchSource::FuzzyFallback);
            assert!(matches!(payload, Response::SyncedLyrics(s, _) if s == "[00:01.00] x"));
        },
        _ => panic!("expected a finished resolution"),
    }
}

#[test]
fn fuzzy_failure_degrades_to_nothing() {
    let mut r = resolver(3_000, true);
    r.on_exact_result(Response::NoLyrics);
    r.on_field_search_results(&vec![]);
    r.on_fuzzy_search_failed();
    match r.state {
        ResolveState::Finished(payload, source) => {
            assert!(matches!(payload, Response::NoLyrics));
            assert_eq!(source, MatchSource::NoMatch);
        },
        _ => panic!("expected a finished resolution"),
    }
}

#[test]
fn fuzzy_query_is_title_space_artist() {
    let r = resolver(3_000, true);
    assert_eq!(r.fuzzy_query(), "Song Artist");
}
