use lrcget::response::Response;
use lrcget::search::{
    completeness_score, filter_by_title_similarity, pick_best_match, search_item_to_response,
    SearchItem,
};

fn item(
    id: i64,
    duration_ms: Option<u64>,
    plain: Option<&str>,
    synced: Option<&str>,
    instrumental: bool,
) -> SearchItem {
    SearchItem {
        id,
        name: None,
        artist_name: None,
        album_name: None,
        duration_ms,
        instrumental,
        plain_lyrics: plain.map(|s| s.to_owned()),
        synced_lyrics: synced.map(|s| s.to_owned()),
    }
}

#[test]
fn score_values() {
    assert_eq!(completeness_score(&item(1, None, None, Some("s"), false)), 0);
    assert_eq!(completeness_score(&item(1, None, Some("p"), None, false)), 1);
    assert_eq!(completeness_score(&item(1, None, None, None, true)), 2);
    assert_eq!(completeness_score(&item(1, None, None, None, false)), 3);
}

#[test]
fn pick_excludes_out_of_tolerance() {
    // a synced candidate outside the window loses to nothing at all
    let results = vec![item(1, Some(210_000), None, Some("s"), false)];
    assert_eq!(pick_best_match(&results, 200_000, 3_000), None);
}

#[test]
fn pick_excludes_missing_duration() {
    let results = vec![item(1, None, None, Some("s"), false)];
    assert_eq!(pick_best_match(&results, 200_000, 3_000), None);
}

#[test]
fn pick_synced_beats_plain_regardless_of_distance() {
    let results = vec![
        item(1, Some(200_000), Some("p"), None, false),
        item(2, Some(202_900), None, Some("s"), false),
    ];
    assert_eq!(pick_best_match(&results, 200_000, 3_000), Some(1));
}

#[test]
fn pick_equal_score_smaller_distance_wins() {
    let results = vec![
        item(1, Some(202_000), None, Some("s"), false),
        item(2, Some(200_500), None, Some("s"), false),
    ];
    assert_eq!(pick_best_match(&results, 200_000, 3_000), Some(1));
}

#[test]
fn pick_full_tie_keeps_first() {
    let results = vec![
        item(1, Some(201_000), None, Some("s"), false),
        item(2, Some(201_000), None, Some("s"), false),
    ];
    assert_eq!(pick_best_match(&results, 200_000, 3_000), Some(0));
}

#[test]
fn pick_empty_set() {
    let results: Vec<SearchItem> = vec![];
    assert_eq!(pick_best_match(&results, 200_000, 3_000), None);
}

#[test]
fn convert_synced_with_plain() {
    let it = item(1, None, Some("plain"), Some("[00:01.00] hi"), false);
    match search_item_to_response(&it) {
        Response::SyncedLyrics(s, p) => {
            assert_eq!(s, "[00:01.00] hi");
            assert_eq!(p, "plain");
        },
        _ => panic!("expected synced lyrics"),
    }
}

#[test]
fn convert_synced_derives_plain_by_stripping() {
    let it = item(1, None, None, Some("[00:01.00] hi\n[00:02.00] there"), false);
    match search_item_to_response(&it) {
        Response::SyncedLyrics(s, p) => {
            assert_eq!(s, "[00:01.00] hi\n[00:02.00] there");
            assert_eq!(p, "hi\nthere");
        },
        _ => panic!("expected synced lyrics"),
    }
}

#[test]
fn convert_plain_only() {
    let it = item(1, None, Some("words"), None, false);
    assert!(matches!(search_item_to_response(&it), Response::UnsyncedLyrics(p) if p == "words"));
}

#[test]
fn convert_instrumental() {
    let it = item(1, None, None, None, true);
    assert!(matches!(search_item_to_response(&it), Response::IsInstrumental));
}

#[test]
fn convert_empty() {
    let it = item(1, None, None, None, false);
    assert!(matches!(search_item_to_response(&it), Response::NoLyrics));
}

#[test]
fn filter_keeps_similar_names_only() {
    let mut far = item(1, Some(200_000), None, Some("s"), false);
    far.name = Some("alpha gamma delta".to_owned());
    let mut near = item(2, Some(200_000), None, Some("s"), false);
    near.name = Some("alpha beta".to_owned());
    let unnamed = item(3, Some(200_000), None, Some("s"), false);
    let kept = filter_by_title_similarity(&vec![far, near, unnamed], "alpha beta");
    assert_eq!(kept.len(), 1);
    assert_eq!(kept[0].id, 2);
}
