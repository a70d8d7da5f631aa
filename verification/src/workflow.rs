use vstd::prelude::*;

use crate::response::Response;
use crate::text::{append_chars, chars_of, push_char};
use crate::utils::{has_instrumental_marker, is_real_synced_text, marker_seq, spec_has_marker};

verus! {

// ----------------------------------------------------------------------------
// The download workflow's decisions.
// ----------------------------------------------------------------------------

/// A download is skipped when the track already holds real synced lyrics,
/// i.e. a stored synced text other than the bare instrumental sentinel:
/// nothing better can come back.
pub fn should_skip_download(lrc_lyrics: &Option<String>) -> (r: bool)
    ensures
        r == (lrc_lyrics matches Some(l) && l@ != marker_seq()),
{
    match lrc_lyrics {
        Some(l) => is_real_synced_text(l.as_str()),
        None => false,
    }
}

/// What the catalog does with a freshly resolved payload.
#[derive(Clone, Copy, PartialEq, Eq, Structural, Debug)]
pub enum DownloadAction {
    /// Store the synced text and its plain form.
    UpdateSynced,
    /// Store the plain text.
    UpdatePlain,
    /// Keep the stored plain text: the remote offered nothing better.
    SkipExistingPlain,
    /// Mark the track instrumental.
    MarkInstrumental,
    /// Report the named not-found error.
    ReportNotFound,
}

/// Decides what the catalog does with a resolved payload: synced text is
/// always stored; plain text is stored only for a track without one; an
/// instrumental payload marks the track; an empty payload is the named
/// not-found outcome.
pub fn download_action(lyrics: &Response, has_plain: bool) -> (r: DownloadAction)
    ensures
        lyrics is SyncedLyrics ==> r == DownloadAction::UpdateSynced,
        lyrics is UnsyncedLyrics && has_plain ==> r == DownloadAction::SkipExistingPlain,
        lyrics is UnsyncedLyrics && !has_plain ==> r == DownloadAction::UpdatePlain,
        lyrics is IsInstrumental ==> r == DownloadAction::MarkInstrumental,
        lyrics is NoLyrics ==> r == DownloadAction::ReportNotFound,
{
    match lyrics {
        Response::SyncedLyrics(_, _) => DownloadAction::UpdateSynced,
        Response::UnsyncedLyrics(_) => {
            if has_plain {
                DownloadAction::SkipExistingPlain
            } else {
                DownloadAction::UpdatePlain
            }
        },
        Response::IsInstrumental => DownloadAction::MarkInstrumental,
        Response::NoLyrics => DownloadAction::ReportNotFound,
    }
}

// ----------------------------------------------------------------------------
// The save workflow's decision.
// ----------------------------------------------------------------------------

/// What the catalog does with a user-edited lyrics pair.
#[derive(Clone, Copy, PartialEq, Eq, Structural, Debug)]
pub enum LyricsUpdate {
    /// The synced text holds the instrumental marker: mark the track.
    SetInstrumental,
    /// Store the synced text and its plain form.
    SetSynced,
    /// Store the plain text alone.
    SetPlain,
    /// Both texts are empty: clear the track's lyrics.
    ClearLyrics,
}

/// Decides what the catalog does with a user-edited pair: an instrumental
/// marker anywhere in the synced text marks the track; otherwise a
/// non-empty synced text wins, then a non-empty plain text, and two empty
/// texts clear the stored lyrics.
pub fn choose_lyrics_update(plain: &str, synced: &str) -> (r: LyricsUpdate)
    ensures
        spec_has_marker(synced@) ==> r == LyricsUpdate::SetInstrumental,
        !spec_has_marker(synced@) && synced@.len() > 0 ==> r == LyricsUpdate::SetSynced,
        !spec_has_marker(synced@) && synced@.len() == 0 && plain@.len() > 0 ==> r
            == LyricsUpdate::SetPlain,
        !spec_has_marker(synced@) && synced@.len() == 0 && plain@.len() == 0 ==> r
            == LyricsUpdate::ClearLyrics,
{
    if has_instrumental_marker(synced) {
        LyricsUpdate::SetInstrumental
    } else if !synced.is_empty() {
        LyricsUpdate::SetSynced
    } else if !plain.is_empty() {
        LyricsUpdate::SetPlain
    } else {
        LyricsUpdate::ClearLyrics
    }
}

// ----------------------------------------------------------------------------
// The publish token.
// ----------------------------------------------------------------------------

/// The character of one decimal digit.
pub open spec fn digit_char_of(d: int) -> char {
    if d == 0 {
        '0'
    } else if d == 1 {
        '1'
    } else if d == 2 {
        '2'
    } else if d == 3 {
        '3'
    } else if d == 4 {
        '4'
    } else if d == 5 {
        '5'
    } else if d == 6 {
        '6'
    } else if d == 7 {
        '7'
    } else if d == 8 {
        '8'
    } else {
        '9'
    }
}

/// The decimal digits of a number, as characters.
pub open spec fn decimal_chars(n: nat) -> Seq<char>
    decreases n,
{
    if n < 10 {
        seq![digit_char_of(n as int)]
    } else {
        decimal_chars(n / 10).push(digit_char_of((n % 10) as int))
    }
}

/// The character of one digit value.
fn digit_char(d: u64) -> (r: char)
    requires
        d < 10,
    ensures
        r == digit_char_of(d as int),
{
    if d == 0 {
        '0'
    } else if d == 1 {
        '1'
    } else if d == 2 {
        '2'
    } else if d == 3 {
        '3'
    } else if d == 4 {
        '4'
    } else if d == 5 {
        '5'
    } else if d == 6 {
        '6'
    } else if d == 7 {
        '7'
    } else if d == 8 {
        '8'
    } else {
        '9'
    }
}

/// Appends the decimal digits of `n`.
fn push_decimal_chars(n: u64, out: &mut Vec<char>)
    ensures
        final(out)@ == old(out)@ + decimal_chars(n as nat),
    decreases n,
{
    if n < 10 {
        let c = digit_char(n);
        out.push(c);
        proof {
            assert(old(out)@ + decimal_chars(n as nat) =~= old(out)@.push(
                digit_char_of(n as int),
            ));
        }
    } else {
        push_decimal_chars(n / 10, out);
        let c = digit_char(n % 10);
        out.push(c);
        proof {
            assert(old(out)@ + decimal_chars(n as nat) =~= (old(out)@ + decimal_chars(
                (n / 10) as nat,
            )).push(digit_char_of((n % 10) as int)));
        }
    }
}

/// The header value that authorizes a publish or flag request: the
/// challenge prefix and the solved nonce's decimal digits, colon-joined.
pub fn publish_token(prefix: &str, nonce: u64) -> (r: String)
    ensures
        r@ == prefix@ + seq![':'] + decimal_chars(nonce as nat),
{
    let pc = chars_of(prefix);
    let mut v: Vec<char> = Vec::new();
    let mut s = String::new();
    append_chars(&mut s, &pc);
    push_char(&mut s, ':');
    push_decimal_chars(nonce, &mut v);
    append_chars(&mut s, &v);
    proof {
        assert(Seq::<char>::empty() + prefix@ =~= prefix@);
        assert(prefix@.push(':') =~= prefix@ + seq![':']);
        assert(Seq::<char>::empty() + decimal_chars(nonce as nat) =~= decimal_chars(
            nonce as nat,
        ));
    }
    s
}

} // verus!
