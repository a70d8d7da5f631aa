use vstd::prelude::*;

use crate::utils::{spec_stripped, strip_timestamp};

verus! {

/// The body of a successful lyrics lookup, as the remote's get operations
/// return it.
pub struct RawResponse {
    pub plain_lyrics: Option<String>,
    pub synced_lyrics: Option<String>,
    pub instrumental: bool,
}

/// A resolved lyrics payload: exactly one of synced text (with its derived
/// plain form), plain text, an instrumental mark, or nothing.
#[derive(Debug)]
pub enum Response {
    SyncedLyrics(String, String),
    UnsyncedLyrics(String),
    IsInstrumental,
    NoLyrics,
}

/// The mathematical value of a lyrics payload.
pub enum ResponseView {
    Synced(Seq<char>, Seq<char>),
    Unsynced(Seq<char>),
    Instrumental,
    Nothing,
}

impl View for Response {
    type V = ResponseView;

    open spec fn view(&self) -> ResponseView {
        match self {
            Response::SyncedLyrics(s, p) => ResponseView::Synced(s@, p@),
            Response::UnsyncedLyrics(p) => ResponseView::Unsynced(p@),
            Response::IsInstrumental => ResponseView::Instrumental,
            Response::NoLyrics => ResponseView::Nothing,
        }
    }
}

/// The value of an optional string.
pub open spec fn opt_view(o: Option<String>) -> Option<Seq<char>> {
    match o {
        Some(s) => Some(s@),
        None => None,
    }
}

/// Normalization of a remote lyrics body: synced text wins and brings a
/// plain form, derived by stripping timestamps when the remote sent none;
/// then plain text; then the instrumental mark; an empty body with no
/// instrumental flag holds nothing.
pub open spec fn spec_normalized_body(
    synced: Option<Seq<char>>,
    plain: Option<Seq<char>>,
    instrumental: bool,
) -> ResponseView {
    match synced {
        Some(s) => ResponseView::Synced(
            s,
            match plain {
                Some(p) => p,
                None => spec_stripped(s),
            },
        ),
        None => match plain {
            Some(p) => ResponseView::Unsynced(p),
            None => if instrumental {
                ResponseView::Instrumental
            } else {
                ResponseView::Nothing
            },
        },
    }
}

impl RawResponse {
    /// The payload this raw body normalizes to.
    pub open spec fn body_view(&self) -> ResponseView {
        spec_normalized_body(
            opt_view(self.synced_lyrics),
            opt_view(self.plain_lyrics),
            self.instrumental,
        )
    }
}

impl Response {
    /// Whether this payload carries anything at all.
    pub fn is_found(&self) -> (r: bool)
        ensures
            r == !(self is NoLyrics),
    {
        match self {
            Response::NoLyrics => false,
            _ => true,
        }
    }

    /// Normalizes a raw lookup body into the shared payload shape.
    pub fn from_raw_response(raw: RawResponse) -> (r: Response)
        ensures
            r@ == raw.body_view(),
    {
        match raw.synced_lyrics {
            Some(synced) => {
                let plain = match raw.plain_lyrics {
                    Some(p) => p,
                    None => strip_timestamp(synced.as_str()),
                };
                Response::SyncedLyrics(synced, plain)
            },
            None => match raw.plain_lyrics {
                Some(plain) => Response::UnsyncedLyrics(plain),
                None => {
                    if raw.instrumental {
                        Response::IsInstrumental
                    } else {
                        Response::NoLyrics
                    }
                },
            },
        }
    }
}

/// A raw lookup body is empty when it has neither text nor the instrumental
/// flag; the by-id retrieval reports that as a named not-found error.
pub fn raw_response_is_empty(raw: &RawResponse) -> (r: bool)
    ensures
        r == (raw.synced_lyrics is None && raw.plain_lyrics is None && !raw.instrumental),
{
    raw.synced_lyrics.is_none() && raw.plain_lyrics.is_none() && !raw.instrumental
}

} // verus!
