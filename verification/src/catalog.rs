use vstd::prelude::*;

use vstd::string::StringExecFns;

verus! {

/// The sort column of a track listing: a recognized sort key names its
/// column, and anything else falls back to the lowercased title.  The
/// lyrics-status key sorts by the same completeness ranking the candidate
/// ranking uses: synced first, then plain, then instrumental, then nothing.
pub open spec fn spec_sort_column(sort_by: Seq<char>) -> Seq<char> {
    if sort_by == "title"@ {
        "title_lower"@
    } else if sort_by == "duration"@ {
        "duration"@
    } else if sort_by == "track_number"@ {
        "track_number"@
    } else if sort_by == "lyrics_status"@ {
        "CASE WHEN lrc_lyrics IS NOT NULL AND lrc_lyrics != '[au: instrumental]' THEN 0 WHEN txt_lyrics IS NOT NULL THEN 1 WHEN instrumental = 1 THEN 2 ELSE 3 END"@
    } else {
        "title_lower"@
    }
}

/// The sort direction: descending only when asked for exactly, else
/// ascending.
pub open spec fn spec_sort_direction(sort_order: Seq<char>) -> Seq<char> {
    if sort_order == "desc"@ {
        "DESC"@
    } else {
        "ASC"@
    }
}

/// Whether two string slices hold the same characters.
fn str_eq(a: &str, b: &str) -> (r: bool)
    ensures
        r == (a@ == b@),
{
    let sa = String::from_str(a);
    let sb = String::from_str(b);
    sa == sb
}

/// Builds the ordering clause of a track listing from the user's sort key
/// and direction.
pub fn get_order_clause(sort_by: &str, sort_order: &str) -> (r: String)
    ensures
        r@ == "ORDER BY "@ + spec_sort_column(sort_by@) + seq![' '] + spec_sort_direction(
            sort_order@,
        ),
{
    let column: &str = if str_eq(sort_by, "title") {
        "title_lower"
    } else if str_eq(sort_by, "duration") {
        "duration"
    } else if str_eq(sort_by, "track_number") {
        "track_number"
    } else if str_eq(sort_by, "lyrics_status") {
        "CASE WHEN lrc_lyrics IS NOT NULL AND lrc_lyrics != '[au: instrumental]' THEN 0 WHEN txt_lyrics IS NOT NULL THEN 1 WHEN instrumental = 1 THEN 2 ELSE 3 END"
    } else {
        "title_lower"
    };
    let direction: &str = if str_eq(sort_order, "desc") {
        "DESC"
    } else {
        "ASC"
    };
    let mut s = String::new();
    s.append("ORDER BY ");
    s.append(column);
    s.append(" ");
    s.append(direction);
    proof {
        assert(Seq::<char>::empty() + "ORDER BY "@ =~= "ORDER BY "@);
        assert(" "@ =~= seq![' ']) by {
            reveal_strlit(" ");
        }
    }
    s
}

} // verus!
