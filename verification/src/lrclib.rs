use vstd::prelude::*;

use crate::text::{append_chars, chars_of, push_char};

verus! {

/// The structured error body of the remote API's rejections.
#[derive(Debug)]
pub struct ResponseError {
    pub status_code: Option<u16>,
    pub error: String,
    pub message: String,
}

impl ResponseError {
    /// The human-readable form of this error: its code and its message,
    /// colon-joined.
    pub fn describe(&self) -> (r: String)
        ensures
            r@ == self.error@ + seq![':', ' '] + self.message@,
    {
        let ec = chars_of(self.error.as_str());
        let mc = chars_of(self.message.as_str());
        let mut s = String::new();
        append_chars(&mut s, &ec);
        push_char(&mut s, ':');
        push_char(&mut s, ' ');
        append_chars(&mut s, &mc);
        proof {
            assert(Seq::<char>::empty() + self.error@ =~= self.error@);
            assert(self.error@.push(':').push(' ') =~= self.error@ + seq![':', ' ']);
        }
        s
    }
}

/// The error body of a status the remote left undocumented.
pub fn unknown_error() -> (r: ResponseError)
    ensures
        r.status_code is None,
        r.error@ == "UnknownError"@,
        r.message@ == "Unknown error happened"@,
{
    ResponseError {
        status_code: None,
        error: "UnknownError".to_owned(),
        message: "Unknown error happened".to_owned(),
    }
}

/// The error body of a by-id retrieval that found nothing.
pub fn not_found_error() -> (r: ResponseError)
    ensures
        r.status_code matches Some(c) && c == 404,
        r.error@ == "NotFound"@,
        r.message@ == "There is no lyrics for this track"@,
{
    ResponseError {
        status_code: Some(404),
        error: "NotFound".to_owned(),
        message: "There is no lyrics for this track".to_owned(),
    }
}

// ----------------------------------------------------------------------------
// Mapping HTTP statuses to outcomes.
// ----------------------------------------------------------------------------

/// What a remote status code means for the operation that saw it.
#[derive(Clone, Copy, PartialEq, Eq, Structural, Debug)]
pub enum StatusOutcome {
    /// The operation succeeded: parse the body (`200`), or, for publish and
    /// flag, done (`201`).
    Success,
    /// The get operations' expected miss: no lyrics exist (`404`).
    NotFoundMiss,
    /// A structured rejection: parse the error body and propagate it.
    RemoteRejection,
    /// A status the remote left undocumented.
    UnknownStatus,
}

/// Status mapping of the get operations: `200` carries a body, `404` is the
/// expected miss, `400`, `500` and `503` carry a structured error body, and
/// anything else is unknown.
pub fn classify_get_status(status: u16) -> (r: StatusOutcome)
    ensures
        status == 200 ==> r == StatusOutcome::Success,
        status == 404 ==> r == StatusOutcome::NotFoundMiss,
        status == 400 || status == 500 || status == 503 ==> r == StatusOutcome::RemoteRejection,
        status != 200 && status != 404 && status != 400 && status != 500 && status != 503 ==> r
            == StatusOutcome::UnknownStatus,
{
    if status == 200 {
        StatusOutcome::Success
    } else if status == 404 {
        StatusOutcome::NotFoundMiss
    } else if status == 400 || status == 500 || status == 503 {
        StatusOutcome::RemoteRejection
    } else {
        StatusOutcome::UnknownStatus
    }
}

/// Status mapping of the search operation: as the get operations, except
/// that a `404` is as undocumented as any other stray status.
pub fn classify_search_status(status: u16) -> (r: StatusOutcome)
    ensures
        status == 200 ==> r == StatusOutcome::Success,
        status == 400 || status == 500 || status == 503 ==> r == StatusOutcome::RemoteRejection,
        status != 200 && status != 400 && status != 500 && status != 503 ==> r
            == StatusOutcome::UnknownStatus,
{
    if status == 200 {
        StatusOutcome::Success
    } else if status == 400 || status == 500 || status == 503 {
        StatusOutcome::RemoteRejection
    } else {
        StatusOutcome::UnknownStatus
    }
}

/// Status mapping of the challenge request: a `200` carries the challenge
/// body.
pub fn classify_challenge_status(status: u16) -> (r: StatusOutcome)
    ensures
        status == 200 ==> r == StatusOutcome::Success,
        status == 400 || status == 500 || status == 503 ==> r == StatusOutcome::RemoteRejection,
        status != 200 && status != 400 && status != 500 && status != 503 ==> r
            == StatusOutcome::UnknownStatus,
{
    classify_search_status(status)
}

/// Status mapping of the publish and flag operations: they create an entry,
/// so `201` is their success.
pub fn classify_post_status(status: u16) -> (r: StatusOutcome)
    ensures
        status == 201 ==> r == StatusOutcome::Success,
        status == 400 || status == 500 || status == 503 ==> r == StatusOutcome::RemoteRejection,
        status != 201 && status != 400 && status != 500 && status != 503 ==> r
            == StatusOutcome::UnknownStatus,
{
    if status == 201 {
        StatusOutcome::Success
    } else if status == 400 || status == 500 || status == 503 {
        StatusOutcome::RemoteRejection
    } else {
        StatusOutcome::UnknownStatus
    }
}

// ----------------------------------------------------------------------------
// The retry policy of the request layer.
// ----------------------------------------------------------------------------

/// How many times one request is attempted before its transient failure
/// propagates.
pub const MAX_RETRIES: u32 = 3;

/// The base of the linear backoff between attempts, in milliseconds.
pub const RETRY_DELAY_MS: u64 = 1000;

/// What the request layer does after one attempt fails.
#[derive(Clone, Copy, PartialEq, Eq, Structural, Debug)]
pub enum RetryDecision {
    /// The failure is not transient: propagate it at once.
    FailNow,
    /// Sleep this many milliseconds, then try again.
    RetryAfter(u64),
    /// The attempts are exhausted: propagate the last transient failure.
    GiveUp,
}

/// The retry rule, shared by the GET and POST paths: only transient
/// failures are retried, with a linear backoff that grows by the base delay
/// after each attempt, and the attempt count is bounded.  Attempts are
/// numbered from zero.
pub fn retry_decision(attempt: u32, transient: bool) -> (r: RetryDecision)
    requires
        attempt < MAX_RETRIES,
    ensures
        !transient ==> r == RetryDecision::FailNow,
        transient && attempt + 1 < MAX_RETRIES ==> r == RetryDecision::RetryAfter(
            (RETRY_DELAY_MS * (attempt + 1)) as u64,
        ),
        transient && attempt + 1 >= MAX_RETRIES ==> r == RetryDecision::GiveUp,
{
    if !transient {
        RetryDecision::FailNow
    } else if attempt + 1 < MAX_RETRIES {
        RetryDecision::RetryAfter(RETRY_DELAY_MS * ((attempt + 1) as u64))
    } else {
        RetryDecision::GiveUp
    }
}

// ----------------------------------------------------------------------------
// Building the request URLs.
// ----------------------------------------------------------------------------

/// The instance base URL with its trailing slashes removed.
pub open spec fn spec_trimmed_instance(s: Seq<char>) -> Seq<char>
    decreases s.len(),
{
    if s.len() > 0 && s.last() == '/' {
        spec_trimmed_instance(s.drop_last())
    } else {
        s
    }
}

/// Joins the instance base URL, shorn of trailing slashes, with an API path.
pub fn api_endpoint(instance: &str, path: &str) -> (r: String)
    ensures
        r@ == spec_trimmed_instance(instance@) + path@,
{
    let mut v = chars_of(instance);
    while v.len() > 0 && v[v.len() - 1] == '/'
        invariant
            spec_trimmed_instance(instance@) == spec_trimmed_instance(v@),
        decreases v@.len(),
    {
        proof {
            assert(v@.last() == v@[v@.len() - 1]);
        }
        let _ = v.pop();
    }
    proof {
        assert(spec_trimmed_instance(v@) == v@);
    }
    let pc = chars_of(path);
    let mut s = String::new();
    append_chars(&mut s, &v);
    append_chars(&mut s, &pc);
    proof {
        assert(Seq::<char>::empty() + v@ =~= v@);
    }
    s
}

/// The views of a list of query parameters.
pub open spec fn param_views(ps: Seq<(String, String)>) -> Seq<(Seq<char>, Seq<char>)> {
    ps.map_values(|p: (String, String)| (p.0@, p.1@))
}

/// The query parameters of the search operation: each of the four fields is
/// sent only when it is non-empty, in the fixed order track name, artist
/// name, album name, free-text query.
pub open spec fn spec_search_params(
    title: Seq<char>,
    artist_name: Seq<char>,
    album_name: Seq<char>,
    q: Seq<char>,
) -> Seq<(Seq<char>, Seq<char>)> {
    (if title.len() > 0 {
        seq![("track_name"@, title)]
    } else {
        Seq::empty()
    }) + (if artist_name.len() > 0 {
        seq![("artist_name"@, artist_name)]
    } else {
        Seq::empty()
    }) + (if album_name.len() > 0 {
        seq![("album_name"@, album_name)]
    } else {
        Seq::empty()
    }) + (if q.len() > 0 {
        seq![("q"@, q)]
    } else {
        Seq::empty()
    })
}

/// Builds the search operation's query parameters.
pub fn search_query_params(title: &str, artist_name: &str, album_name: &str, q: &str) -> (r: Vec<
    (String, String),
>)
    ensures
        param_views(r@) == spec_search_params(title@, artist_name@, album_name@, q@),
{
    let mut r: Vec<(String, String)> = Vec::new();
    if !title.is_empty() {
        r.push(("track_name".to_owned(), title.to_owned()));
    }
    if !artist_name.is_empty() {
        r.push(("artist_name".to_owned(), artist_name.to_owned()));
    }
    if !album_name.is_empty() {
        r.push(("album_name".to_owned(), album_name.to_owned()));
    }
    if !q.is_empty() {
        r.push(("q".to_owned(), q.to_owned()));
    }
    proof {
        assert(param_views(r@) =~= spec_search_params(title@, artist_name@, album_name@, q@));
    }
    r
}

} // verus!
