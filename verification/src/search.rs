use vstd::prelude::*;

use crate::response::{opt_view, spec_normalized_body, Response, ResponseView};
use crate::text::{meets_min_similarity, title_similarity_ok};
use crate::utils::strip_timestamp;

verus! {

/// One result of the remote search operation.  The remote reports durations
/// in seconds; this record carries them in whole milliseconds.
pub struct SearchItem {
    pub id: i64,
    pub name: Option<String>,
    pub artist_name: Option<String>,
    pub album_name: Option<String>,
    pub duration_ms: Option<u64>,
    pub instrumental: bool,
    pub plain_lyrics: Option<String>,
    pub synced_lyrics: Option<String>,
}

/// Completeness score of a candidate: synced lyrics rank best (0), then
/// plain lyrics (1), then an instrumental mark (2), then nothing (3).
pub open spec fn spec_score(it: SearchItem) -> int {
    if it.synced_lyrics is Some {
        0
    } else if it.plain_lyrics is Some {
        1
    } else if it.instrumental {
        2
    } else {
        3
    }
}

/// Distance of a candidate's reported duration from the target, in
/// milliseconds; meaningful only when the candidate reports one.
pub open spec fn spec_dist(it: SearchItem, target_ms: u64) -> nat {
    let d = it.duration_ms->0;
    if d >= target_ms {
        (d - target_ms) as nat
    } else {
        (target_ms - d) as nat
    }
}

/// A candidate may win only when it reports a duration within the tolerance
/// of the target.
pub open spec fn spec_eligible(it: SearchItem, target_ms: u64, tolerance_ms: u64) -> bool {
    it.duration_ms is Some && spec_dist(it, target_ms) <= tolerance_ms
}

/// Strict preference between candidates: lower completeness score wins;
/// on equal scores, smaller duration distance wins.
pub open spec fn spec_better(a: SearchItem, b: SearchItem, target_ms: u64) -> bool {
    ||| spec_score(a) < spec_score(b)
    ||| (spec_score(a) == spec_score(b) && spec_dist(a, target_ms) < spec_dist(b, target_ms))
}

/// Completeness score of a candidate.
pub fn completeness_score(it: &SearchItem) -> (r: u8)
    ensures
        r as int == spec_score(*it),
{
    if it.synced_lyrics.is_some() {
        0
    } else if it.plain_lyrics.is_some() {
        1
    } else if it.instrumental {
        2
    } else {
        3
    }
}

/// Distance of a candidate's reported duration from the target.
fn duration_distance(d: u64, target_ms: u64) -> (r: u64)
    ensures
        r == (if d >= target_ms {
            d - target_ms
        } else {
            target_ms - d
        }),
{
    if d >= target_ms {
        d - target_ms
    } else {
        target_ms - d
    }
}

/// Picks the winning candidate: discards every candidate without a reported
/// duration or with one farther than the tolerance from the target, then
/// prefers lower completeness score and, on ties, smaller duration distance.
/// Among fully tied candidates the first-encountered one wins.  Returns the
/// winner's index.
pub fn pick_best_match(results: &Vec<SearchItem>, duration_ms: u64, tolerance_ms: u64) -> (r:
    Option<usize>)
    ensures
        r is None ==> forall|j: int|
            0 <= j < results@.len() ==> !spec_eligible(results@[j], duration_ms, tolerance_ms),
        r matches Some(i) ==> spec_winner(results@, i as int, duration_ms, tolerance_ms),
{
    let mut best: Option<usize> = None;
    let n = results.len();
    for k in 0..n
        invariant
            n == results@.len(),
            best is None ==> forall|j: int|
                0 <= j < k ==> !spec_eligible(results@[j], duration_ms, tolerance_ms),
            best matches Some(i) ==> {
                &&& 0 <= i < k
                &&& spec_eligible(results@[i as int], duration_ms, tolerance_ms)
                &&& forall|j: int|
                    0 <= j < k && spec_eligible(results@[j], duration_ms, tolerance_ms)
                        ==> !spec_better(results@[j], results@[i as int], duration_ms)
                &&& forall|j: int|
                    0 <= j < i && spec_eligible(results@[j], duration_ms, tolerance_ms)
                        ==> spec_better(results@[i as int], results@[j], duration_ms)
            },
    {
        let it = &results[k];
        let eligible = match it.duration_ms {
            Some(d) => duration_distance(d, duration_ms) <= tolerance_ms,
            None => false,
        };
        if eligible {
            match best {
                None => {
                    best = Some(k);
                },
                Some(b) => {
                    let cand = &results[b];
                    let sk = completeness_score(it);
                    let sb = completeness_score(cand);
                    let strictly_better = if sk < sb {
                        true
                    } else if sk > sb {
                        false
                    } else {
                        let dk = match it.duration_ms {
                            Some(d) => duration_distance(d, duration_ms),
                            None => 0,
                        };
                        let db = match cand.duration_ms {
                            Some(d) => duration_distance(d, duration_ms),
                            None => 0,
                        };
                        dk < db
                    };
                    if strictly_better {
                        best = Some(k);
                    }
                },
            }
        }
    }
    best
}

/// The index `i` names the ranking's winner among `results`: it is
/// eligible, no eligible candidate is strictly preferred to it, and it is
/// strictly preferred to every eligible candidate before it.
pub open spec fn spec_winner(results: Seq<SearchItem>, i: int, target_ms: u64, tolerance_ms: u64) -> bool {
    &&& 0 <= i < results.len()
    &&& spec_eligible(results[i], target_ms, tolerance_ms)
    &&& forall|j: int|
        0 <= j < results.len() && spec_eligible(results[j], target_ms, tolerance_ms)
            ==> !spec_better(results[j], results[i], target_ms)
    &&& forall|j: int|
        0 <= j < i && spec_eligible(results[j], target_ms, tolerance_ms) ==> spec_better(
            results[i],
            results[j],
            target_ms,
        )
}

/// The payload a winning candidate converts to.
pub open spec fn item_body_view(it: SearchItem) -> ResponseView {
    spec_normalized_body(opt_view(it.synced_lyrics), opt_view(it.plain_lyrics), it.instrumental)
}

/// A fuzzy-search candidate survives only when its remote track name scores
/// at least the minimum title similarity against the local title.
pub open spec fn spec_title_ok(it: SearchItem, title: Seq<char>) -> bool {
    it.name matches Some(n) && meets_min_similarity(title, n@)
}

/// Copies an optional string.
fn clone_opt_string(o: &Option<String>) -> (r: Option<String>)
    ensures
        r == *o,
{
    match o {
        Some(s) => Some(clone_string(s)),
        None => None,
    }
}

/// Copies a string.
fn clone_string(s: &String) -> (r: String)
    ensures
        r == *s,
{
    s.clone()
}

/// Copies one search candidate.
fn clone_search_item(it: &SearchItem) -> (r: SearchItem)
    ensures
        r == *it,
{
    SearchItem {
        id: it.id,
        name: clone_opt_string(&it.name),
        artist_name: clone_opt_string(&it.artist_name),
        album_name: clone_opt_string(&it.album_name),
        duration_ms: it.duration_ms,
        instrumental: it.instrumental,
        plain_lyrics: clone_opt_string(&it.plain_lyrics),
        synced_lyrics: clone_opt_string(&it.synced_lyrics),
    }
}

/// Keeps the fuzzy-search candidates whose remote track name is similar
/// enough to the local title, in their original order.
pub fn filter_by_title_similarity(items: &Vec<SearchItem>, title: &str) -> (r: Vec<SearchItem>)
    ensures
        r@ == items@.filter(|it: SearchItem| spec_title_ok(it, title@)),
{
    let mut r: Vec<SearchItem> = Vec::new();
    let n = items.len();
    proof {
        reveal(Seq::filter);
        assert(r@ =~= items@.take(0).filter(|it: SearchItem| spec_title_ok(it, title@)));
    }
    for i in 0..n
        invariant
            n == items@.len(),
            r@ == items@.take(i as int).filter(|it: SearchItem| spec_title_ok(it, title@)),
    {
        let it = &items[i];
        let ok = match &it.name {
            Some(n_) => title_similarity_ok(title, n_.as_str()),
            None => false,
        };
        proof {
            reveal(Seq::filter);
            assert(items@.take(i + 1).drop_last() =~= items@.take(i as int));
            assert(items@.take(i + 1).last() == items@[i as int]);
        }
        if ok {
            let copy = clone_search_item(it);
            r.push(copy);
        }
        assert(r@ == items@.take(i + 1).filter(|it: SearchItem| spec_title_ok(it, title@)));
    }
    proof {
        assert(items@.take(n as int) =~= items@);
    }
    r
}

/// Converts a winning search candidate into the shared lyrics payload:
/// synced text wins and brings a plain form (derived by stripping
/// timestamps when the remote sent none), then plain text, then the
/// instrumental mark, else nothing.
pub fn search_item_to_response(item: &SearchItem) -> (r: Response)
    ensures
        r@ == item_body_view(*item),
{
    match &item.synced_lyrics {
        Some(synced) => {
            let plain = match &item.plain_lyrics {
                Some(p) => clone_string(p),
                None => strip_timestamp(synced.as_str()),
            };
            Response::SyncedLyrics(clone_string(synced), plain)
        },
        None => match &item.plain_lyrics {
            Some(plain) => Response::UnsyncedLyrics(clone_string(plain)),
            None => {
                if item.instrumental {
                    Response::IsInstrumental
                } else {
                    Response::NoLyrics
                }
            },
        },
    }
}

// ----------------------------------------------------------------------------
// The ranking rules, stated on their own.
// ----------------------------------------------------------------------------

/// Between two eligible candidates with equal completeness score, the one
/// with the smaller duration distance is strictly preferred; and a candidate
/// with synced lyrics is strictly preferred over one with only plain lyrics,
/// whatever their distances.
pub proof fn lemma_ranking_tie_breaks(a: SearchItem, b: SearchItem, target_ms: u64)
    ensures
        spec_score(a) == spec_score(b) && spec_dist(a, target_ms) < spec_dist(b, target_ms)
            ==> spec_better(a, b, target_ms),
        a.synced_lyrics is Some && b.synced_lyrics is None && b.plain_lyrics is Some
            ==> spec_better(a, b, target_ms),
{
}

/// A candidate whose reported duration lies outside the tolerance window,
/// or who reports none, is never the ranking's winner, whatever its
/// completeness score.
pub proof fn lemma_ranking_excludes_out_of_window(
    results: Seq<SearchItem>,
    i: int,
    j: int,
    target_ms: u64,
    tolerance_ms: u64,
)
    requires
        spec_winner(results, i, target_ms, tolerance_ms),
        0 <= j < results.len(),
        !spec_eligible(results[j], target_ms, tolerance_ms),
    ensures
        i != j,
{
}

/// When any eligible candidate offers synced lyrics, the winner offers
/// synced lyrics too: a plain-only candidate never wins over a synced one,
/// whatever their duration distances.
pub proof fn lemma_winner_has_synced_when_available(
    results: Seq<SearchItem>,
    i: int,
    j: int,
    target_ms: u64,
    tolerance_ms: u64,
)
    requires
        spec_winner(results, i, target_ms, tolerance_ms),
        0 <= j < results.len(),
        spec_eligible(results[j], target_ms, tolerance_ms),
        results[j].synced_lyrics is Some,
    ensures
        results[i].synced_lyrics is Some,
{
    if results[i].synced_lyrics is None {
        assert(spec_better(results[j], results[i], target_ms));
    }
}

/// Among eligible candidates of equal completeness score, the winner's
/// duration distance is least.
pub proof fn lemma_winner_minimizes_distance(
    results: Seq<SearchItem>,
    i: int,
    j: int,
    target_ms: u64,
    tolerance_ms: u64,
)
    requires
        spec_winner(results, i, target_ms, tolerance_ms),
        0 <= j < results.len(),
        spec_eligible(results[j], target_ms, tolerance_ms),
        spec_score(results[j]) == spec_score(results[i]),
    ensures
        spec_dist(results[i], target_ms) <= spec_dist(results[j], target_ms),
{
    if spec_dist(results[i], target_ms) > spec_dist(results[j], target_ms) {
        assert(spec_better(results[j], results[i], target_ms));
    }
}

} // verus!
