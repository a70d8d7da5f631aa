use lrcget::response::Response;
use lrcget::sidecar::{embed_format, EmbedFormat};
use lrcget::sidecar::{
    apply_lyrics_for_track, apply_string_lyrics_for_track, build_lrc_path, build_txt_path,
    save_instrumental, save_plain_lyrics, save_synced_lyrics, SidecarState,
};

fn both(plain: &str, synced: &str) -> SidecarState {
    SidecarState {
        plain: Some(plain.to_owned()),
        synced: Some(synced.to_owned()),
    }
}

fn empty() -> SidecarState {
    SidecarState { plain: None, synced: None }
}

#[test]
fn synced_write_removes_plain_sidecar() {
    let before = SidecarState {
        plain: Some("old plain".to_owned()),
        synced: None,
    };
    let after = save_synced_lyrics(before, "[00:01.00] la");
    assert_eq!(after.plain, None);
    assert_eq!(after.synced.as_deref(), Some("[00:01.00] la"));
}

#[test]
fn empty_synced_write_removes_synced_without_creating() {
    let before = both("keep me", "[00:01.00] la");
    let after = save_synced_lyrics(before, "");
    assert_eq!(after.synced, None);
    assert_eq!(after.plain.as_deref(), Some("keep me"));
}

#[test]
fn plain_write_removes_synced_sidecar() {
    let before = both("old", "[00:01.00] la");
    let after = save_plain_lyrics(before, "new plain");
    assert_eq!(after.synced, None);
    assert_eq!(after.plain.as_deref(), Some("new plain"));
}

#[test]
fn empty_plain_write_removes_both() {
    let before = both("old", "[00:01.00] la");
    let after = save_plain_lyrics(before, "");
    assert_eq!(after.plain, None);
    assert_eq!(after.synced, None);
}

#[test]
fn instrumental_write_leaves_only_the_marker() {
    let before = both("old", "[00:01.00] la");
    let after = save_instrumental(before);
    assert_eq!(after.plain, None);
    assert_eq!(after.synced.as_deref(), Some("[au: instrumental]"));
}

#[test]
fn apply_instrumental_removes_both_and_writes_marker() {
    let after = apply_lyrics_for_track(both("p", "s"), &Response::IsInstrumental);
    assert_eq!(after.plain, None);
    assert_eq!(after.synced.as_deref(), Some("[au: instrumental]"));
}

#[test]
fn apply_nothing_changes_nothing() {
    let after = apply_lyrics_for_track(both("p", "s"), &Response::NoLyrics);
    assert_eq!(after.plain.as_deref(), Some("p"));
    assert_eq!(after.synced.as_deref(), Some("s"));
}

#[test]
fn apply_twice_equals_apply_once() {
    let payloads = [
        Response::SyncedLyrics("[00:01.00] a".to_owned(), "a".to_owned()),
        Response::SyncedLyrics("".to_owned(), "".to_owned()),
        Response::UnsyncedLyrics("words".to_owned()),
        Response::UnsyncedLyrics("".to_owned()),
        Response::IsInstrumental,
        Response::NoLyrics,
    ];
    for payload in payloads.iter() {
        let once = apply_lyrics_for_track(both("p", "s"), payload);
        let once_again = apply_lyrics_for_track(both("p", "s"), payload);
        let twice = apply_lyrics_for_track(once_again, payload);
        assert_eq!(once.plain, twice.plain);
        assert_eq!(once.synced, twice.synced);
    }
}

#[test]
fn string_write_synced_wins() {
    let after = apply_string_lyrics_for_track(empty(), "plain", "[00:01.00] la");
    assert_eq!(after.plain, None);
    assert_eq!(after.synced.as_deref(), Some("[00:01.00] la"));
}

#[test]
fn string_write_plain_only() {
    let after = apply_string_lyrics_for_track(both("a", "b"), "plain", "");
    assert_eq!(after.plain.as_deref(), Some("plain"));
    assert_eq!(after.synced, None);
}

#[test]
fn string_write_both_empty_clears() {
    let after = apply_string_lyrics_for_track(both("a", "b"), "", "");
    assert_eq!(after.plain, None);
    assert_eq!(after.synced, None);
}

#[test]
fn txt_path_replaces_extension() {
    assert_eq!(build_txt_path("/music/album/song.mp3"), "/music/album/song.txt");
}

#[test]
fn lrc_path_replaces_extension() {
    assert_eq!(build_lrc_path("/music/album/song.mp3"), "/music/album/song.lrc");
}

#[test]
fn paths_without_extension_gain_one() {
    assert_eq!(build_txt_path("/music/song"), "/music/song.txt");
}

#[test]
fn paths_with_dotted_stem_drop_last_extension_only() {
    assert_eq!(build_lrc_path("/music/song.tar.mp3"), "/music/song.tar.lrc");
}

#[test]
fn hidden_files_keep_their_leading_dot() {
    assert_eq!(build_txt_path("/music/.hidden"), "/music/.hidden.txt");
}

#[test]
fn relative_paths_keep_their_directory() {
    assert_eq!(build_lrc_path("music/song.flac"), "music/song.lrc");
    assert_eq!(build_lrc_path("song.flac"), "song.lrc");
}

#[test]
fn embed_dispatch_by_extension() {
    assert_eq!(embed_format("/a/song.MP3"), EmbedFormat::Mp3);
    assert_eq!(embed_format("/a/song.flac"), EmbedFormat::Flac);
    assert_eq!(embed_format("/a/song.ogg"), EmbedFormat::Unsupported);
}
