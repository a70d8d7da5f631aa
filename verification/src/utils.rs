use vstd::prelude::*;

use crate::text::{
    append_chars, chars_of, is_space_char, join_pieces, join_with, space_char, token_views,
};

verus! {

// ----------------------------------------------------------------------------
// Splitting a text into lines.
// ----------------------------------------------------------------------------

/// Splits `s` at newline characters; `cur` is the line being read and `acc`
/// the lines already finished.  Unlike token scanning, empty lines are kept.
pub open spec fn scan_lines(s: Seq<char>, cur: Seq<char>, acc: Seq<Seq<char>>) -> Seq<Seq<char>>
    decreases s.len(),
{
    if s.len() == 0 {
        acc.push(cur)
    } else if s[0] == '\n' {
        scan_lines(s.drop_first(), Seq::empty(), acc.push(cur))
    } else {
        scan_lines(s.drop_first(), cur.push(s[0]), acc)
    }
}

/// The lines of a text; there is always at least one.
pub open spec fn lines_of(s: Seq<char>) -> Seq<Seq<char>> {
    scan_lines(s, Seq::empty(), Seq::empty())
}

/// Splits into lines at `'\n'`, keeping empty lines.
pub(crate) fn split_lines(v: &Vec<char>) -> (r: Vec<Vec<char>>)
    ensures
        token_views(r@) == lines_of(v@),
{
    let mut acc: Vec<Vec<char>> = Vec::new();
    let mut cur: Vec<char> = Vec::new();
    let n = v.len();
    proof {
        assert(v@.skip(0) =~= v@);
        assert(acc@.map_values(|t: Vec<char>| t@) =~= Seq::<Seq<char>>::empty());
    }
    for i in 0..n
        invariant
            n == v@.len(),
            lines_of(v@) == scan_lines(v@.skip(i as int), cur@, token_views(acc@)),
    {
        let c = v[i];
        let ghost rest: Seq<char> = v@.skip(i as int);
        let ghost acc0: Seq<Seq<char>> = token_views(acc@);
        let ghost cur0: Seq<char> = cur@;
        proof {
            assert(rest[0] == v@[i as int]);
            assert(rest.drop_first() =~= v@.skip(i + 1));
        }
        if c == '\n' {
            acc.push(cur);
            cur = Vec::new();
            proof {
                assert(token_views(acc@) =~= acc0.push(cur0));
                assert(cur@ =~= Seq::<char>::empty());
            }
        } else {
            cur.push(c);
            proof {
                assert(cur@ =~= cur0.push(rest[0]));
            }
        }
        assert(lines_of(v@) == scan_lines(v@.skip(i + 1), cur@, token_views(acc@)));
    }
    proof {
        assert(v@.skip(n as int) =~= Seq::<char>::empty());
    }
    let ghost accn: Seq<Seq<char>> = token_views(acc@);
    acc.push(cur);
    proof {
        assert(token_views(acc@) =~= accn.push(cur@));
    }
    acc
}

// ----------------------------------------------------------------------------
// Stripping the leading timestamp tag of each line.
// ----------------------------------------------------------------------------

/// Index of the first `']'` in `l` at or after `i`, or `l.len()` if none.
pub open spec fn first_close(l: Seq<char>, i: int) -> int
    decreases l.len() - i,
{
    if i < 0 || i >= l.len() {
        l.len() as int
    } else if l[i] == ']' {
        i
    } else {
        first_close(l, i + 1)
    }
}

/// Index of the first character at or after `i` that is not a plain space.
pub open spec fn skip_spaces(l: Seq<char>, i: int) -> int
    decreases l.len() - i,
{
    if i < 0 || i >= l.len() {
        l.len() as int
    } else if l[i] == ' ' {
        skip_spaces(l, i + 1)
    } else {
        i
    }
}

/// A line with its leading `[...]` tag and the spaces after it removed; a
/// line that does not begin with a closed bracket tag is kept whole.
pub open spec fn strip_line(l: Seq<char>) -> Seq<char> {
    if l.len() > 0 && l[0] == '[' && first_close(l, 0) < l.len() {
        l.skip(skip_spaces(l, first_close(l, 0) + 1))
    } else {
        l
    }
}

/// The whole text with every line's leading tag removed.
pub open spec fn spec_stripped(s: Seq<char>) -> Seq<char> {
    join_with(lines_of(s).map_values(|l: Seq<char>| strip_line(l)), '\n')
}

/// Finds the first `']'` at or after `from`, or returns the length.
fn find_close(l: &Vec<char>, from: usize) -> (r: usize)
    requires
        from <= l@.len(),
    ensures
        r == first_close(l@, from as int),
        from <= r <= l@.len(),
{
    let n = l.len();
    let mut i = from;
    while i < n
        invariant
            n == l@.len(),
            from <= i <= n,
            first_close(l@, from as int) == first_close(l@, i as int),
        decreases n - i,
    {
        if l[i] == ']' {
            return i;
        }
        i = i + 1;
    }
    i
}

/// Finds the first character at or after `from` that is not a plain space.
pub(crate) fn find_nonspace(l: &Vec<char>, from: usize) -> (r: usize)
    requires
        from <= l@.len(),
    ensures
        r == skip_spaces(l@, from as int),
        from <= r <= l@.len(),
{
    let n = l.len();
    let mut i = from;
    while i < n
        invariant
            n == l@.len(),
            from <= i <= n,
            skip_spaces(l@, from as int) == skip_spaces(l@, i as int),
        decreases n - i,
    {
        if l[i] != ' ' {
            return i;
        }
        i = i + 1;
    }
    i
}

/// Removes the leading timestamp tag of one line.
fn strip_line_exec(l: &Vec<char>) -> (r: Vec<char>)
    ensures
        r@ == strip_line(l@),
{
    if l.len() > 0 && l[0] == '[' {
        let close = find_close(l, 0);
        if close < l.len() {
            let start = find_nonspace(l, close + 1);
            let mut r: Vec<char> = Vec::new();
            let n = l.len();
            let mut i = start;
            proof {
                assert(r@ =~= l@.skip(start as int).take(0));
            }
            while i < n
                invariant
                    n == l@.len(),
                    start <= i <= n,
                    r@ == l@.skip(start as int).take(i - start),
                decreases n - i,
            {
                r.push(l[i]);
                proof {
                    assert(l@.skip(start as int).take(i + 1 - start) =~= l@.skip(
                        start as int,
                    ).take(i - start).push(l@[i as int]));
                }
                i = i + 1;
            }
            proof {
                assert(l@.skip(start as int).take(n - start) =~= l@.skip(start as int));
            }
            return r;
        }
    }
    let mut r: Vec<char> = Vec::new();
    let n = l.len();
    for i in 0..n
        invariant
            n == l@.len(),
            r@ =~= l@.take(i as int),
    {
        r.push(l[i]);
        assert(r@ =~= l@.take(i + 1));
    }
    proof {
        assert(l@.take(n as int) =~= l@);
    }
    r
}

/// Removes the leading `[...]` timestamp tag of every line, together with
/// the spaces that follow it, turning synced lyrics into their plain form.
pub fn strip_timestamp(synced_lyrics: &str) -> (r: String)
    ensures
        r@ == spec_stripped(synced_lyrics@),
{
    let cs = chars_of(synced_lyrics);
    let lines = split_lines(&cs);
    let mut stripped: Vec<Vec<char>> = Vec::new();
    let n = lines.len();
    let ghost lseq: Seq<Seq<char>> = token_views(lines@);
    proof {
        assert(token_views(stripped@) =~= lseq.take(0).map_values(|l: Seq<char>| strip_line(l)));
    }
    for i in 0..n
        invariant
            n == lines@.len(),
            lseq == token_views(lines@),
            token_views(stripped@) == lseq.take(i as int).map_values(
                |l: Seq<char>| strip_line(l),
            ),
    {
        let ghost s0: Seq<Seq<char>> = token_views(stripped@);
        let s = strip_line_exec(&lines[i]);
        stripped.push(s);
        proof {
            assert(token_views(stripped@) =~= s0.push(strip_line(lseq[i as int])));
            assert(lseq.take(i + 1).map_values(|l: Seq<char>| strip_line(l)) =~= lseq.take(
                i as int,
            ).map_values(|l: Seq<char>| strip_line(l)).push(strip_line(lseq[i as int])));
        }
        assert(token_views(stripped@) == lseq.take(i + 1).map_values(
            |l: Seq<char>| strip_line(l),
        ));
    }
    proof {
        assert(lseq.take(n as int) =~= lseq);
    }
    join_pieces(&stripped, '\n')
}

// ----------------------------------------------------------------------------
// The instrumental marker.
// ----------------------------------------------------------------------------

/// The characters of the sentinel synced-lyrics payload `[au: instrumental]`.
pub open spec fn marker_seq() -> Seq<char> {
    seq![
        '[', 'a', 'u', ':', ' ', 'i', 'n', 's', 't', 'r', 'u', 'm', 'e', 'n', 't', 'a', 'l',
        ']',
    ]
}

/// The trailing literal of an instrumental marker tag.
pub open spec fn marker_tail() -> Seq<char> {
    seq!['i', 'n', 's', 't', 'r', 'u', 'm', 'e', 'n', 't', 'a', 'l', ']']
}

/// An instrumental marker starts at `i`: the literal `[au:`, then
/// whitespace, then the literal `instrumental]`.
pub open spec fn marker_at(s: Seq<char>, i: int) -> bool {
    let j = skip_whitespace(s, i + 4);
    &&& 0 <= i
    &&& i + 4 <= s.len()
    &&& s[i] == '[' && s[i + 1] == 'a' && s[i + 2] == 'u' && s[i + 3] == ':'
    &&& j + 13 <= s.len()
    &&& s.subrange(j, j + 13) == marker_tail()
}

/// Index of the first character at or after `i` without the Unicode
/// `White_Space` property, or the length if all the rest are whitespace.
pub open spec fn skip_whitespace(s: Seq<char>, i: int) -> int
    decreases s.len() - i,
{
    if i < 0 || i >= s.len() {
        s.len() as int
    } else if is_space_char(s[i]) {
        skip_whitespace(s, i + 1)
    } else {
        i
    }
}

/// Whether the text holds an instrumental marker tag anywhere.
pub open spec fn spec_has_marker(s: Seq<char>) -> bool {
    exists|i: int| marker_at(s, i)
}

/// Finds the first character at or after `from` that is not whitespace.
fn find_nonwhite(v: &Vec<char>, from: usize) -> (r: usize)
    requires
        from <= v@.len(),
    ensures
        r == skip_whitespace(v@, from as int),
        from <= r <= v@.len(),
{
    let n = v.len();
    let mut i = from;
    while i < n
        invariant
            n == v@.len(),
            from <= i <= n,
            skip_whitespace(v@, from as int) == skip_whitespace(v@, i as int),
        decreases n - i,
    {
        if !space_char(v[i]) {
            return i;
        }
        i = i + 1;
    }
    i
}

/// Checks for the literal `instrumental]` at position `j`.
fn tail_matches(v: &Vec<char>, j: usize) -> (r: bool)
    requires
        j + 13 <= v@.len(),
    ensures
        r == (v@.subrange(j as int, j as int + 13) == marker_tail()),
{
    let n = v.len();
    let ok = v[j] == 'i' && v[j + 1] == 'n' && v[j + 2] == 's' && v[j + 3] == 't' && v[j + 4]
        == 'r' && v[j + 5] == 'u' && v[j + 6] == 'm' && v[j + 7] == 'e' && v[j + 8] == 'n'
        && v[j + 9] == 't' && v[j + 10] == 'a' && v[j + 11] == 'l' && v[j + 12] == ']';
    proof {
        if ok {
            assert(v@.subrange(j as int, j as int + 13) =~= marker_tail());
        } else {
            assert(v@.subrange(j as int, j as int + 13) != marker_tail()) by {
                if v@.subrange(j as int, j as int + 13) == marker_tail() {
                    assert(forall|k: int|
                        0 <= k < 13 ==> v@.subrange(j as int, j as int + 13)[k]
                            == marker_tail()[k]);
                }
            }
        }
    }
    ok
}

/// Whether the text holds the instrumental marker tag `[au:` + whitespace +
/// `instrumental]` anywhere.
pub fn has_instrumental_marker(s: &str) -> (r: bool)
    ensures
        r == spec_has_marker(s@),
{
    let v = chars_of(s);
    let n = v.len();
    if n < 4 {
        proof {
            assert(forall|i: int| !marker_at(v@, i));
        }
        return false;
    }
    for i in 0..n - 3
        invariant
            n == v@.len(),
            n >= 4,
            v@ == s@,
            forall|k: int| 0 <= k < i ==> !marker_at(v@, k),
    {
        if v[i] == '[' && v[i + 1] == 'a' && v[i + 2] == 'u' && v[i + 3] == ':' {
            let j = find_nonwhite(&v, i + 4);
            if n - j >= 13 {
                if tail_matches(&v, j) {
                    assert(marker_at(v@, i as int));
                    return true;
                }
            }
            assert(!marker_at(v@, i as int));
        } else {
            assert(!marker_at(v@, i as int));
        }
    }
    proof {
        assert(forall|k: int| n - 3 <= k ==> !marker_at(v@, k));
        assert(forall|k: int| k < 0 ==> !marker_at(v@, k));
    }
    false
}

/// The sentinel synced-lyrics payload written for instrumental tracks.
pub fn instrumental_marker() -> (r: String)
    ensures
        r@ == marker_seq(),
{
    let mut v: Vec<char> = Vec::new();
    v.push('[');
    v.push('a');
    v.push('u');
    v.push(':');
    v.push(' ');
    v.push('i');
    v.push('n');
    v.push('s');
    v.push('t');
    v.push('r');
    v.push('u');
    v.push('m');
    v.push('e');
    v.push('n');
    v.push('t');
    v.push('a');
    v.push('l');
    v.push(']');
    let mut r = String::new();
    append_chars(&mut r, &v);
    proof {
        assert(v@ =~= marker_seq());
        assert(Seq::<char>::empty() + v@ =~= v@);
    }
    r
}

/// Whether a stored synced-lyrics text is real synced lyrics rather than the
/// bare instrumental sentinel.
pub fn is_real_synced_text(l: &str) -> (r: bool)
    ensures
        r == (l@ != marker_seq()),
{
    let v = chars_of(l);
    if v.len() != 18 {
        proof {
            assert(marker_seq().len() == 18);
        }
        return true;
    }
    let m = v[0] == '[' && v[1] == 'a' && v[2] == 'u' && v[3] == ':' && v[4] == ' ' && v[5]
        == 'i' && v[6] == 'n' && v[7] == 's' && v[8] == 't' && v[9] == 'r' && v[10] == 'u'
        && v[11] == 'm' && v[12] == 'e' && v[13] == 'n' && v[14] == 't' && v[15] == 'a'
        && v[16] == 'l' && v[17] == ']';
    proof {
        if m {
            assert(v@ =~= marker_seq());
        } else {
            assert(v@ != marker_seq()) by {
                if v@ == marker_seq() {
                    assert(forall|k: int| 0 <= k < 18 ==> v@[k] == marker_seq()[k]);
                }
            }
        }
    }
    !m
}

} // verus!
