use vstd::prelude::*;

use crate::response::Response;
use crate::search::{
    filter_by_title_similarity, item_body_view, pick_best_match, search_item_to_response,
    spec_eligible, spec_title_ok, spec_winner, SearchItem,
};
use crate::text::{append_chars, chars_of, push_char};

verus! {

/// How a lyrics payload was obtained: an exact field match, the
/// duration-tolerant field search, the free-text fuzzy search, or not at
/// all.
#[derive(Clone, Copy, PartialEq, Eq, Structural, Debug)]
pub enum MatchSource {
    Exact,
    DurationFallback,
    FuzzyFallback,
    NoMatch,
}

/// The named error of a by-id retrieval that found nothing.
#[derive(Clone, Copy, PartialEq, Eq, Structural, Debug)]
pub enum GetLyricsError {
    NotFound,
}

impl GetLyricsError {
    /// The human-readable message of this error.
    pub fn message(&self) -> (r: String)
        ensures
            r@ == "This track does not exist in LRCLIB database"@,
    {
        "This track does not exist in LRCLIB database".to_owned()
    }
}

/// Where a resolution stands: which remote call it waits for, or the final
/// payload and its source.
pub enum ResolveState {
    QueryExact,
    QueryFieldSearch,
    QueryFuzzySearch,
    Finished(Response, MatchSource),
}

/// One track's resolution, run as a conversation: the caller performs the
/// remote call the state asks for and hands the outcome back, and the
/// resolver decides the next step.  The tiers run strictly in the order
/// exact match, duration-tolerant field search, free-text fuzzy search, and
/// a finished resolution carries the payload to hand to the persistence
/// writer together with its source.
pub struct Resolver {
    pub title: String,
    pub artist_name: String,
    pub album_name: String,
    pub duration_ms: u64,
    pub tolerance_ms: u64,
    pub fuzzy_enabled: bool,
    pub state: ResolveState,
}

impl Resolver {
    /// The fallback gates: with the tolerance at zero neither fallback
    /// search is ever reached, and with fuzzy search disabled the fuzzy
    /// tier is never reached.
    pub open spec fn wf(&self) -> bool {
        &&& self.tolerance_ms == 0 ==> !(self.state is QueryFieldSearch) && !(self.state
            is QueryFuzzySearch)
        &&& !self.fuzzy_enabled ==> !(self.state is QueryFuzzySearch)
    }

    /// The track data and settings a step leaves untouched.
    pub open spec fn same_config(a: Resolver, b: Resolver) -> bool {
        &&& a.title == b.title
        &&& a.artist_name == b.artist_name
        &&& a.album_name == b.album_name
        &&& a.duration_ms == b.duration_ms
        &&& a.tolerance_ms == b.tolerance_ms
        &&& a.fuzzy_enabled == b.fuzzy_enabled
    }

    /// Starts a resolution at the exact-match tier.
    pub fn new(
        title: String,
        artist_name: String,
        album_name: String,
        duration_ms: u64,
        tolerance_ms: u64,
        fuzzy_enabled: bool,
    ) -> (r: Resolver)
        ensures
            r.title == title,
            r.artist_name == artist_name,
            r.album_name == album_name,
            r.duration_ms == duration_ms,
            r.tolerance_ms == tolerance_ms,
            r.fuzzy_enabled == fuzzy_enabled,
            r.state is QueryExact,
            r.wf(),
    {
        Resolver {
            title,
            artist_name,
            album_name,
            duration_ms,
            tolerance_ms,
            fuzzy_enabled,
            state: ResolveState::QueryExact,
        }
    }

    /// Takes the exact-match lookup's payload.  Any payload at all finishes
    /// the resolution as an exact match; nothing with the tolerance at zero
    /// finishes it empty-handed; nothing with a positive tolerance moves on
    /// to the field search.
    pub fn on_exact_result(&mut self, lyrics: Response)
        requires
            old(self).state is QueryExact,
        ensures
            Self::same_config(*old(self), *final(self)),
            final(self).wf(),
            !(lyrics@ is Nothing) ==> (final(self).state matches ResolveState::Finished(r, src)
                && r@ == lyrics@ && src == MatchSource::Exact),
            lyrics@ is Nothing && old(self).tolerance_ms == 0 ==> (final(self).state
                matches ResolveState::Finished(r, src) && r@ is Nothing && src
                == MatchSource::NoMatch),
            lyrics@ is Nothing && old(self).tolerance_ms > 0 ==> final(self).state
                is QueryFieldSearch,
    {
        let found = lyrics.is_found();
        if found {
            self.state = ResolveState::Finished(lyrics, MatchSource::Exact);
        } else if self.tolerance_ms == 0 {
            self.state = ResolveState::Finished(Response::NoLyrics, MatchSource::NoMatch);
        } else {
            self.state = ResolveState::QueryFieldSearch;
        }
    }

    /// Takes the field search's candidates.  The ranking picks a winner
    /// within the tolerance and finishes as a duration fallback; with no
    /// winner the resolution either moves on to the fuzzy tier or, with
    /// fuzzy search disabled, finishes empty-handed.  A failed field search
    /// is fatal: the caller propagates its error and abandons the resolver.
    pub fn on_field_search_results(&mut self, results: &Vec<SearchItem>)
        requires
            old(self).state is QueryFieldSearch,
            old(self).wf(),
        ensures
            Self::same_config(*old(self), *final(self)),
            final(self).wf(),
            (exists|i: int|
                0 <= i < results@.len() && spec_eligible(
                    #[trigger] results@[i],
                    old(self).duration_ms,
                    old(self).tolerance_ms,
                )) ==> (final(self).state matches ResolveState::Finished(r, src) && src
                == MatchSource::DurationFallback && (exists|i: int|
                #[trigger] spec_winner(results@, i, old(self).duration_ms, old(self).tolerance_ms)
                    && r@ == item_body_view(results@[i]))),
            (forall|j: int|
                0 <= j < results@.len() ==> !spec_eligible(
                    results@[j],
                    old(self).duration_ms,
                    old(self).tolerance_ms,
                )) ==> (if old(self).fuzzy_enabled {
                final(self).state is QueryFuzzySearch
            } else {
                final(self).state matches ResolveState::Finished(r, src) && r@ is Nothing && src
                    == MatchSource::NoMatch
            }),
    {
        let picked = pick_best_match(results, self.duration_ms, self.tolerance_ms);
        match picked {
            Some(i) => {
                let response = search_item_to_response(&results[i]);
                self.state = ResolveState::Finished(response, MatchSource::DurationFallback);
            },
            None => {
                if self.fuzzy_enabled {
                    self.state = ResolveState::QueryFuzzySearch;
                } else {
                    self.state = ResolveState::Finished(
                        Response::NoLyrics,
                        MatchSource::NoMatch,
                    );
                }
            },
        }
    }

    /// The free-text query of the fuzzy tier: the title and the artist
    /// name, space-joined.
    pub fn fuzzy_query(&self) -> (r: String)
        ensures
            r@ == self.title@ + seq![' '] + self.artist_name@,
    {
        let tc = chars_of(self.title.as_str());
        let ac = chars_of(self.artist_name.as_str());
        let mut s = String::new();
        append_chars(&mut s, &tc);
        push_char(&mut s, ' ');
        append_chars(&mut s, &ac);
        proof {
            assert(Seq::<char>::empty() + self.title@ =~= self.title@);
            assert(self.title@.push(' ') =~= self.title@ + seq![' ']);
        }
        s
    }

    /// Takes the fuzzy search's candidates.  Candidates whose remote track
    /// name scores under the minimum title similarity are discarded; the
    /// ranking picks a winner among the survivors and finishes as a fuzzy
    /// fallback, or the resolution finishes empty-handed.
    pub fn on_fuzzy_search_results(&mut self, results: &Vec<SearchItem>)
        requires
            old(self).state is QueryFuzzySearch,
            old(self).wf(),
        ensures
            Self::same_config(*old(self), *final(self)),
            final(self).wf(),
            ({
                let kept = results@.filter(
                    |it: SearchItem| spec_title_ok(it, old(self).title@),
                );
                &&& (exists|i: int|
                    0 <= i < kept.len() && spec_eligible(
                        #[trigger] kept[i],
                        old(self).duration_ms,
                        old(self).tolerance_ms,
                    )) ==> (final(self).state matches ResolveState::Finished(r, src) && src
                    == MatchSource::FuzzyFallback && (exists|i: int|
                    #[trigger] spec_winner(
                        kept,
                        i,
                        old(self).duration_ms,
                        old(self).tolerance_ms,
                    ) && r@ == item_body_view(kept[i])))
                &&& (forall|j: int|
                    0 <= j < kept.len() ==> !spec_eligible(
                        kept[j],
                        old(self).duration_ms,
                        old(self).tolerance_ms,
                    )) ==> (final(self).state matches ResolveState::Finished(r, src) && r@
                    is Nothing && src == MatchSource::NoMatch)
            }),
    {
        let kept = filter_by_title_similarity(results, self.title.as_str());
        let picked = pick_best_match(&kept, self.duration_ms, self.tolerance_ms);
        match picked {
            Some(i) => {
                let response = search_item_to_response(&kept[i]);
                self.state = ResolveState::Finished(response, MatchSource::FuzzyFallback);
            },
            None => {
                self.state = ResolveState::Finished(Response::NoLyrics, MatchSource::NoMatch);
            },
        }
    }

    /// Takes a fuzzy-search failure.  The fuzzy tier is best-effort: its
    /// network error degrades to an empty result instead of propagating.
    pub fn on_fuzzy_search_failed(&mut self)
        requires
            old(self).state is QueryFuzzySearch,
        ensures
            Self::same_config(*old(self), *final(self)),
            final(self).wf(),
            final(self).state matches ResolveState::Finished(r, src) && r@ is Nothing && src
                == MatchSource::NoMatch,
    {
        self.state = ResolveState::Finished(Response::NoLyrics, MatchSource::NoMatch);
    }
}

/// With the duration tolerance at zero, no resolution state ever asks for
/// the duration-fallback or fuzzy-fallback search call: the gates of the
/// resolver exclude both tiers outright.
pub proof fn lemma_no_fallback_when_tolerance_zero(r: Resolver)
    requires
        r.wf(),
        r.tolerance_ms == 0,
    ensures
        !(r.state is QueryFieldSearch),
        !(r.state is QueryFuzzySearch),
{
}

} // verus!
