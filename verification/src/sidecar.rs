use vstd::prelude::*;

use crate::response::Response;
use crate::text::append_chars;
use crate::utils::marker_seq;

verus! {

// ----------------------------------------------------------------------------
// The on-disk sidecar pair, as a value.
// ----------------------------------------------------------------------------

/// The two sidecar files of one track: the plain-text `.txt` sidecar and the
/// synced `.lrc` sidecar, each either absent or present with its content.
/// File input and output lives outside the library; callers read the pair,
/// transform it here, and write back what changed.
pub struct SidecarState {
    pub plain: Option<String>,
    pub synced: Option<String>,
}

/// The mathematical value of a sidecar pair.
pub struct SidecarView {
    pub plain: Option<Seq<char>>,
    pub synced: Option<Seq<char>>,
}

impl View for SidecarState {
    type V = SidecarView;

    open spec fn view(&self) -> SidecarView {
        SidecarView {
            plain: match self.plain {
                Some(p) => Some(p@),
                None => None,
            },
            synced: match self.synced {
                Some(s) => Some(s@),
                None => None,
            },
        }
    }
}

// ----------------------------------------------------------------------------
// The write rules, as functions on the sidecar value.
// ----------------------------------------------------------------------------

/// A plain write removes the synced sidecar and writes the plain one, or
/// removes it too when the text is empty.
pub open spec fn spec_save_plain(s: SidecarView, lyrics: Seq<char>) -> SidecarView {
    SidecarView {
        synced: None,
        plain: if lyrics.len() == 0 {
            None
        } else {
            Some(lyrics)
        },
    }
}

/// A synced write with text removes the plain sidecar and writes the synced
/// one; an empty synced write only removes the synced sidecar.
pub open spec fn spec_save_synced(s: SidecarView, lyrics: Seq<char>) -> SidecarView {
    if lyrics.len() == 0 {
        SidecarView { plain: s.plain, synced: None }
    } else {
        SidecarView { plain: None, synced: Some(lyrics) }
    }
}

/// An instrumental write removes both sidecars and writes the sentinel
/// marker as the synced sidecar.
pub open spec fn spec_save_instrumental(s: SidecarView) -> SidecarView {
    SidecarView { plain: None, synced: Some(marker_seq()) }
}

/// Applying a lyrics payload: synced text goes through the synced write,
/// plain text through the plain write, an instrumental mark through the
/// instrumental write, and an empty payload changes nothing.
pub open spec fn spec_apply_response(s: SidecarView, r: Response) -> SidecarView {
    match r {
        Response::SyncedLyrics(sy, pl) => spec_save_synced(s, sy@),
        Response::UnsyncedLyrics(pl) => spec_save_plain(s, pl@),
        Response::IsInstrumental => spec_save_instrumental(s),
        Response::NoLyrics => s,
    }
}

/// A user edit hands both texts at once: the plain write runs first, the
/// synced write second, so a non-empty synced text wins.
pub open spec fn spec_apply_string_lyrics(
    s: SidecarView,
    plain: Seq<char>,
    synced: Seq<char>,
) -> SidecarView {
    spec_save_synced(spec_save_plain(s, plain), synced)
}

// ----------------------------------------------------------------------------
// Executable transitions.
// ----------------------------------------------------------------------------

/// The plain write on a sidecar value.
pub fn save_plain_lyrics(state: SidecarState, lyrics: &str) -> (r: SidecarState)
    ensures
        r@ == spec_save_plain(state@, lyrics@),
{
    if lyrics.is_empty() {
        SidecarState { plain: None, synced: None }
    } else {
        SidecarState { plain: Some(lyrics.to_owned()), synced: None }
    }
}

/// The synced write on a sidecar value.
pub fn save_synced_lyrics(state: SidecarState, lyrics: &str) -> (r: SidecarState)
    ensures
        r@ == spec_save_synced(state@, lyrics@),
{
    if lyrics.is_empty() {
        SidecarState { plain: state.plain, synced: None }
    } else {
        SidecarState { plain: None, synced: Some(lyrics.to_owned()) }
    }
}

/// The instrumental write on a sidecar value.
pub fn save_instrumental(state: SidecarState) -> (r: SidecarState)
    ensures
        r@ == spec_save_instrumental(state@),
{
    SidecarState { plain: None, synced: Some(crate::utils::instrumental_marker()) }
}

/// Applies a lyrics payload to a sidecar value, exactly as the write rules
/// say.
pub fn apply_lyrics_for_track(state: SidecarState, lyrics: &Response) -> (r: SidecarState)
    ensures
        r@ == spec_apply_response(state@, *lyrics),
{
    match lyrics {
        Response::SyncedLyrics(sy, pl) => save_synced_lyrics(state, sy.as_str()),
        Response::UnsyncedLyrics(pl) => save_plain_lyrics(state, pl.as_str()),
        Response::IsInstrumental => save_instrumental(state),
        Response::NoLyrics => state,
    }
}

/// Applies a user-edited plain and synced text pair to a sidecar value.
pub fn apply_string_lyrics_for_track(state: SidecarState, plain: &str, synced: &str) -> (r:
    SidecarState)
    ensures
        r@ == spec_apply_string_lyrics(state@, plain@, synced@),
{
    let s1 = save_plain_lyrics(state, plain);
    save_synced_lyrics(s1, synced)
}

// ----------------------------------------------------------------------------
// Laws of the writer.
// ----------------------------------------------------------------------------

/// A synced write with text always removes the plain sidecar, whatever was
/// there; an empty synced write removes the synced sidecar and creates
/// nothing.
pub proof fn lemma_synced_write_excludes_plain(s: SidecarView, lyrics: Seq<char>)
    ensures
        lyrics.len() > 0 ==> spec_save_synced(s, lyrics).plain is None,
        lyrics.len() == 0 ==> spec_save_synced(s, lyrics).synced is None,
{
}

/// Applying the same lyrics payload twice leaves the same sidecar pair as
/// applying it once.
pub proof fn lemma_apply_idempotent(s: SidecarView, r: Response)
    ensures
        spec_apply_response(spec_apply_response(s, r), r) == spec_apply_response(s, r),
{
}

/// After any write, plain and synced sidecars never both carry text unless
/// the payload was empty and left an earlier state alone: every non-empty
/// payload leaves at most one sidecar on disk.
pub proof fn lemma_sidecars_mutually_exclusive(s: SidecarView, r: Response)
    ensures
        !(r is NoLyrics) ==> !(spec_apply_response(s, r).plain is Some && spec_apply_response(
            s,
            r,
        ).synced is Some),
{
}

// ----------------------------------------------------------------------------
// The embedding dispatch.
// ----------------------------------------------------------------------------

/// The tag container a track's lyrics can be embedded into, picked by the
/// file extension.
#[derive(Clone, Copy, PartialEq, Eq, Structural, Debug)]
pub enum EmbedFormat {
    /// The MP3 family: an unsynchronized-text frame and a binary
    /// synchronized-text frame.
    Mp3,
    /// The FLAC family: two comment fields.
    Flac,
    /// Anything else: embedding is skipped.
    Unsupported,
}

/// Whether `s` ends with `suffix`.
pub open spec fn spec_ends_with(s: Seq<char>, suffix: Seq<char>) -> bool {
    s.len() >= suffix.len() && s.skip(s.len() - suffix.len()) == suffix
}

/// Checks a case-folded path for a suffix.
fn chars_end_with(v: &Vec<char>, suffix: &Vec<char>) -> (r: bool)
    ensures
        r == spec_ends_with(v@, suffix@),
{
    let n = v.len();
    let m = suffix.len();
    if n < m {
        return false;
    }
    let start = n - m;
    for i in 0..m
        invariant
            n == v@.len(),
            m == suffix@.len(),
            start == n - m,
            forall|j: int| 0 <= j < i ==> v@[start + j] == suffix@[j],
    {
        if v[start + i] != suffix[i] {
            proof {
                assert(v@.skip(start as int)[i as int] != suffix@[i as int]);
            }
            return false;
        }
    }
    proof {
        assert(v@.skip(start as int) =~= suffix@);
    }
    true
}

/// Picks the embedding container by the file extension, case-insensitively:
/// the MP3 family, the FLAC family, or none.
pub fn embed_format(track_path: &str) -> (r: EmbedFormat)
    ensures
        spec_ends_with(crate::text::lower_of(track_path@), seq!['.', 'm', 'p', '3']) ==> r
            == EmbedFormat::Mp3,
        !spec_ends_with(crate::text::lower_of(track_path@), seq!['.', 'm', 'p', '3'])
            && spec_ends_with(crate::text::lower_of(track_path@), seq!['.', 'f', 'l', 'a', 'c'])
            ==> r == EmbedFormat::Flac,
        !spec_ends_with(crate::text::lower_of(track_path@), seq!['.', 'm', 'p', '3'])
            && !spec_ends_with(crate::text::lower_of(track_path@), seq!['.', 'f', 'l', 'a', 'c'])
            ==> r == EmbedFormat::Unsupported,
{
    let low = crate::text::lowercase(track_path);
    let v = crate::text::chars_of(low.as_str());
    let mut mp3: Vec<char> = Vec::new();
    mp3.push('.');
    mp3.push('m');
    mp3.push('p');
    mp3.push('3');
    proof {
        assert(mp3@ =~= seq!['.', 'm', 'p', '3']);
    }
    if chars_end_with(&v, &mp3) {
        return EmbedFormat::Mp3;
    }
    let mut flac: Vec<char> = Vec::new();
    flac.push('.');
    flac.push('f');
    flac.push('l');
    flac.push('a');
    flac.push('c');
    proof {
        assert(flac@ =~= seq!['.', 'f', 'l', 'a', 'c']);
    }
    if chars_end_with(&v, &flac) {
        return EmbedFormat::Flac;
    }
    EmbedFormat::Unsupported
}

// ----------------------------------------------------------------------------
// Sidecar paths.
// ----------------------------------------------------------------------------

/// Index of the first character of the path's file name: right after the
/// last `'/'`, or `0` when the path holds none.
pub open spec fn file_name_start(p: Seq<char>) -> int
    decreases p.len(),
{
    if p.len() == 0 {
        0
    } else if p.last() == '/' {
        p.len() as int
    } else {
        file_name_start(p.drop_last())
    }
}

/// Index of the last `'.'` of a file name, or `-1` when it holds none.
pub open spec fn last_dot(name: Seq<char>) -> int
    decreases name.len(),
{
    if name.len() == 0 {
        -1
    } else if name.last() == '.' {
        name.len() - 1
    } else {
        last_dot(name.drop_last())
    }
}

/// The stem of a file name: everything before its last `'.'`, except that a
/// name whose only dot leads it (a hidden file) keeps the dot.
pub open spec fn spec_stem(name: Seq<char>) -> Seq<char> {
    let d = last_dot(name);
    if d > 0 {
        name.take(d)
    } else {
        name
    }
}

/// A path names a usable track file when its file name is non-empty and is
/// not one of the relative directory names.
pub open spec fn spec_valid_track_path(p: Seq<char>) -> bool {
    let name = p.skip(file_name_start(p));
    &&& name.len() > 0
    &&& name != seq!['.']
    &&& name != seq!['.', '.']
}

/// The sidecar path: same directory, same stem, the given extension.
pub open spec fn spec_sidecar_path(p: Seq<char>, ext: Seq<char>) -> Seq<char> {
    let start = file_name_start(p);
    p.take(start) + spec_stem(p.skip(start)) + seq!['.'] + ext
}

/// Finds where the file name begins.
fn find_name_start(v: &Vec<char>) -> (r: usize)
    ensures
        r == file_name_start(v@),
        r <= v@.len(),
{
    let n = v.len();
    let mut i = n;
    proof {
        assert(v@.take(n as int) =~= v@);
    }
    while i > 0
        invariant
            n == v@.len(),
            i <= n,
            file_name_start(v@) == file_name_start(v@.take(i as int)),
        decreases i,
    {
        if v[i - 1] == '/' {
            proof {
                assert(v@.take(i as int).last() == v@[i - 1]);
            }
            return i;
        }
        proof {
            assert(v@.take(i as int).last() == v@[i - 1]);
            assert(v@.take(i as int).drop_last() =~= v@.take(i - 1));
        }
        i = i - 1;
    }
    proof {
        assert(v@.take(0) =~= Seq::<char>::empty());
    }
    0
}

/// Finds the last dot of the file name that starts at `start`, or `start`
/// when the name holds none or only a leading one.
fn find_stem_end(v: &Vec<char>, start: usize) -> (r: usize)
    requires
        start <= v@.len(),
    ensures
        r as int == start + spec_stem(v@.skip(start as int)).len(),
        start <= r <= v@.len(),
{
    let ghost name: Seq<char> = v@.skip(start as int);
    let n = v.len();
    let mut i = n;
    proof {
        assert(name.take(n - start) =~= name);
    }
    while i > start
        invariant
            n == v@.len(),
            start <= i <= n,
            name == v@.skip(start as int),
            last_dot(name) == last_dot(name.take(i - start)),
        decreases i,
    {
        if v[i - 1] == '.' {
            proof {
                assert(name.take(i - start).last() == v@[i - 1]);
                assert(last_dot(name) == i - 1 - start);
            }
            if i - 1 > start {
                proof {
                    assert(spec_stem(name) =~= name.take(last_dot(name)));
                }
                return i - 1;
            } else {
                proof {
                    assert(last_dot(name) == 0);
                    assert(spec_stem(name) =~= name);
                }
                return v.len();
            }
        }
        proof {
            assert(name.take(i - start).last() == v@[i - 1]);
            assert(name.take(i - start).drop_last() =~= name.take(i - 1 - start));
        }
        i = i - 1;
    }
    proof {
        assert(name.take(0) =~= Seq::<char>::empty());
        assert(last_dot(name) == -1);
        assert(spec_stem(name) =~= name);
    }
    v.len()
}

/// The last dot of a name lies inside it.
proof fn lemma_last_dot_bound(name: Seq<char>)
    ensures
        -1 <= last_dot(name) < name.len(),
    decreases name.len(),
{
    if name.len() > 0 && name.last() != '.' {
        lemma_last_dot_bound(name.drop_last());
    }
}

/// The path with the file extension replaced by `ext`.
fn replace_extension(track_path: &str, ext: &Vec<char>) -> (r: String)
    ensures
        r@ == spec_sidecar_path(track_path@, ext@),
{
    let v = crate::text::chars_of(track_path);
    let start = find_name_start(&v);
    let stem_end = find_stem_end(&v, start);
    let mut out: Vec<char> = Vec::new();
    let mut i: usize = 0;
    while i < stem_end
        invariant
            stem_end <= v@.len(),
            i <= stem_end,
            v@ == track_path@,
            out@ == v@.take(i as int),
        decreases stem_end - i,
    {
        out.push(v[i]);
        proof {
            assert(v@.take(i + 1) =~= v@.take(i as int).push(v@[i as int]));
        }
        i = i + 1;
    }
    out.push('.');
    let mut j: usize = 0;
    let ghost base: Seq<char> = out@;
    while j < ext.len()
        invariant
            j <= ext@.len(),
            out@ == base + ext@.take(j as int),
        decreases ext@.len() - j,
    {
        out.push(ext[j]);
        proof {
            assert(base + ext@.take(j + 1) =~= (base + ext@.take(j as int)).push(
                ext@[j as int],
            ));
        }
        j = j + 1;
    }
    proof {
        assert(ext@.take(ext@.len() as int) =~= ext@);
        assert(v@.take(stem_end as int) =~= v@.take(start as int) + spec_stem(
            v@.skip(start as int),
        )) by {
            let name = v@.skip(start as int);
            lemma_last_dot_bound(name);
            let d = last_dot(name);
            if d > 0 {
                assert(spec_stem(name) == name.take(d));
                assert(name.take(d).len() == d);
            } else {
                assert(spec_stem(name) == name);
            }
            assert(spec_stem(name) =~= name.take(stem_end - start));
        }
        assert(out@ =~= spec_sidecar_path(track_path@, ext@));
    }
    let mut s = String::new();
    append_chars(&mut s, &out);
    proof {
        assert(Seq::<char>::empty() + out@ =~= out@);
    }
    s
}

/// The path of the plain-text sidecar beside the audio file.
pub fn build_txt_path(track_path: &str) -> (r: String)
    ensures
        r@ == spec_sidecar_path(track_path@, seq!['t', 'x', 't']),
{
    let mut ext: Vec<char> = Vec::new();
    ext.push('t');
    ext.push('x');
    ext.push('t');
    proof {
        assert(ext@ =~= seq!['t', 'x', 't']);
    }
    replace_extension(track_path, &ext)
}

/// The path of the synced-lyrics sidecar beside the audio file.
pub fn build_lrc_path(track_path: &str) -> (r: String)
    ensures
        r@ == spec_sidecar_path(track_path@, seq!['l', 'r', 'c']),
{
    let mut ext: Vec<char> = Vec::new();
    ext.push('l');
    ext.push('r');
    ext.push('c');
    proof {
        assert(ext@ =~= seq!['l', 'r', 'c']);
    }
    replace_extension(track_path, &ext)
}

} // verus!
