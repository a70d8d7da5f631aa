use vstd::prelude::*;

verus! {

// ----------------------------------------------------------------------------
// Trusted views of Unicode character classes and case folding.
// ----------------------------------------------------------------------------

/// The lowercase form of a sequence of characters, as `str::to_lowercase`
/// computes it.
pub uninterp spec fn lower_of(s: Seq<char>) -> Seq<char>;

/// Relies on `str::to_lowercase`: the result depends on the characters alone,
/// and an empty string stays empty.
#[verifier::external_body]
pub(crate) fn lowercase(s: &str) -> (r: String)
    ensures
        r@ == lower_of(s@),
        s@.len() == 0 ==> r@.len() == 0,
{
    s.to_lowercase()
}

/// Whether a character is alphanumeric, as `char::is_alphanumeric` decides it.
pub uninterp spec fn is_alnum_char(c: char) -> bool;

/// Relies on `char::is_alphanumeric`: the answer depends on the character alone.
#[verifier::external_body]
pub(crate) fn alnum_char(c: char) -> (r: bool)
    ensures
        r == is_alnum_char(c),
{
    c.is_alphanumeric()
}

/// Whether a character has the Unicode `White_Space` property, as
/// `char::is_whitespace` decides it.
pub uninterp spec fn is_space_char(c: char) -> bool;

/// Relies on `char::is_whitespace`: the answer depends on the character alone,
/// and a plain space `' '` is whitespace.
#[verifier::external_body]
pub(crate) fn space_char(c: char) -> (r: bool)
    ensures
        r == is_space_char(c),
        c == ' ' ==> r,
{
    c.is_whitespace()
}

/// Relies on `String::push`: appends exactly one character at the end.
#[verifier::external_body]
pub(crate) fn push_char(s: &mut String, c: char)
    ensures
        final(s)@ == old(s)@.push(c),
{
    s.push(c)
}

// ----------------------------------------------------------------------------
// Characters of a string, as a vector.
// ----------------------------------------------------------------------------

/// The characters of a string slice, in order.
pub fn chars_of(s: &str) -> (r: Vec<char>)
    ensures
        r@ == s@,
{
    let n = s.unicode_len();
    let mut r: Vec<char> = Vec::new();
    for i in 0..n
        invariant
            n == s@.len(),
            r@ =~= s@.take(i as int),
    {
        r.push(s.get_char(i));
        assert(r@ =~= s@.take(i + 1));
    }
    assert(r@ =~= s@);
    r
}

// ----------------------------------------------------------------------------
// Normalization: keep alphanumeric and whitespace characters, split into
// whitespace-separated tokens, join the tokens with single spaces.
// ----------------------------------------------------------------------------

/// Whether normalization keeps a character at all.
pub open spec fn keep_char(c: char) -> bool {
    is_alnum_char(c) || is_space_char(c)
}

/// The characters that survive the strip step of normalization.
pub open spec fn filtered(s: Seq<char>) -> Seq<char> {
    s.filter(|c: char| keep_char(c))
}

/// Splits `s` into maximal runs of non-whitespace characters; `cur` is the
/// run being read and `acc` the runs already finished.
pub open spec fn scan_tokens(s: Seq<char>, cur: Seq<char>, acc: Seq<Seq<char>>) -> Seq<Seq<char>>
    decreases s.len(),
{
    if s.len() == 0 {
        if cur.len() == 0 {
            acc
        } else {
            acc.push(cur)
        }
    } else if is_space_char(s[0]) {
        if cur.len() == 0 {
            scan_tokens(s.drop_first(), Seq::empty(), acc)
        } else {
            scan_tokens(s.drop_first(), Seq::empty(), acc.push(cur))
        }
    } else {
        scan_tokens(s.drop_first(), cur.push(s[0]), acc)
    }
}

/// The whitespace-separated tokens of a sequence of characters.
pub open spec fn tokens(s: Seq<char>) -> Seq<Seq<char>> {
    scan_tokens(s, Seq::empty(), Seq::empty())
}

/// The tokens of `s` after case folding and stripping, i.e. the words that
/// normalization and similarity scoring work on.
pub open spec fn norm_tokens(s: Seq<char>) -> Seq<Seq<char>> {
    tokens(filtered(lower_of(s)))
}

/// Pieces joined by a single separator character.
pub open spec fn join_with(ts: Seq<Seq<char>>, sep: char) -> Seq<char>
    decreases ts.len(),
{
    if ts.len() == 0 {
        Seq::empty()
    } else if ts.len() == 1 {
        ts[0]
    } else {
        ts[0] + seq![sep] + join_with(ts.drop_first(), sep)
    }
}

/// Tokens joined by single spaces.
pub open spec fn join_tokens(ts: Seq<Seq<char>>) -> Seq<char> {
    join_with(ts, ' ')
}

/// The normalized form of a string: lowercased, stripped of characters that
/// are neither alphanumeric nor whitespace, with whitespace runs collapsed
/// to single spaces and no whitespace at either end.
pub open spec fn spec_normalized(s: Seq<char>) -> Seq<char> {
    join_tokens(norm_tokens(s))
}

// ----------------------------------------------------------------------------
// Executable normalization.
// ----------------------------------------------------------------------------

/// The strip step: keeps alphanumeric and whitespace characters.
fn filter_chars(v: &Vec<char>) -> (r: Vec<char>)
    ensures
        r@ == filtered(v@),
{
    let mut r: Vec<char> = Vec::new();
    let n = v.len();
    for i in 0..n
        invariant
            n == v@.len(),
            r@ == filtered(v@.take(i as int)),
    {
        let c = v[i];
        let keep = alnum_char(c) || space_char(c);
        proof {
            reveal(Seq::filter);
            assert(v@.take(i + 1).drop_last() =~= v@.take(i as int));
            assert(v@.take(i + 1).last() == v@[i as int]);
        }
        if keep {
            r.push(c);
        }
        assert(r@ == filtered(v@.take(i + 1)));
    }
    proof {
        assert(v@.take(n as int) =~= v@);
    }
    r
}

/// Splits into maximal runs of non-whitespace characters.
fn tokenize(v: &Vec<char>) -> (r: Vec<Vec<char>>)
    ensures
        r@.map_values(|t: Vec<char>| t@) == tokens(v@),
{
    let mut acc: Vec<Vec<char>> = Vec::new();
    let mut cur: Vec<char> = Vec::new();
    let n = v.len();
    proof {
        assert(v@.skip(0) =~= v@);
        assert(acc@.map_values(|t: Vec<char>| t@) =~= Seq::<Seq<char>>::empty());
    }
    for i in 0..n
        invariant
            n == v@.len(),
            tokens(v@) == scan_tokens(
                v@.skip(i as int),
                cur@,
                acc@.map_values(|t: Vec<char>| t@),
            ),
    {
        let c = v[i];
        let ghost rest: Seq<char> = v@.skip(i as int);
        let ghost acc0: Seq<Seq<char>> = acc@.map_values(|t: Vec<char>| t@);
        let ghost cur0: Seq<char> = cur@;
        proof {
            assert(rest.len() > 0);
            assert(rest[0] == v@[i as int]);
            assert(rest.drop_first() =~= v@.skip(i + 1));
        }
        if space_char(c) {
            if cur.len() > 0 {
                acc.push(cur);
                cur = Vec::new();
                proof {
                    assert(acc@.map_values(|t: Vec<char>| t@) =~= acc0.push(cur0));
                    assert(scan_tokens(rest, cur0, acc0) == scan_tokens(
                        rest.drop_first(),
                        Seq::empty(),
                        acc0.push(cur0),
                    ));
                    assert(cur@ =~= Seq::<char>::empty());
                }
            } else {
                proof {
                    assert(cur0 =~= Seq::<char>::empty());
                    assert(scan_tokens(rest, cur0, acc0) == scan_tokens(
                        rest.drop_first(),
                        Seq::empty(),
                        acc0,
                    ));
                }
            }
        } else {
            cur.push(c);
            proof {
                assert(cur@ =~= cur0.push(rest[0]));
                assert(scan_tokens(rest, cur0, acc0) == scan_tokens(
                    rest.drop_first(),
                    cur0.push(rest[0]),
                    acc0,
                ));
            }
        }
        assert(tokens(v@) == scan_tokens(
            v@.skip(i + 1),
            cur@,
            acc@.map_values(|t: Vec<char>| t@),
        ));
    }
    proof {
        assert(v@.skip(n as int) =~= Seq::<char>::empty());
    }
    let ghost accn: Seq<Seq<char>> = acc@.map_values(|t: Vec<char>| t@);
    let ghost curn: Seq<char> = cur@;
    if cur.len() > 0 {
        acc.push(cur);
        proof {
            assert(acc@.map_values(|t: Vec<char>| t@) =~= accn.push(curn));
        }
    }
    acc
}

/// `join_with` distributes over appending one more piece at the end.
proof fn lemma_join_push(ts: Seq<Seq<char>>, t: Seq<char>, sep: char)
    requires
        ts.len() >= 1,
    ensures
        join_with(ts.push(t), sep) == join_with(ts, sep) + seq![sep] + t,
    decreases ts.len(),
{
    if ts.len() == 1 {
        assert(ts.push(t).drop_first() =~= seq![t]);
        assert(join_with(seq![t], sep) == t);
        assert(join_with(ts.push(t), sep) == ts[0] + seq![sep] + t);
    } else {
        lemma_join_push(ts.drop_first(), t, sep);
        assert(ts.push(t).drop_first() =~= ts.drop_first().push(t));
        assert(join_with(ts, sep) + seq![sep] + t =~= ts[0] + seq![sep] + (join_with(
            ts.drop_first(),
            sep,
        ) + seq![sep] + t));
    }
}

/// Appends the characters of `t` to `s`.
pub(crate) fn append_chars(s: &mut String, t: &Vec<char>)
    ensures
        final(s)@ == old(s)@ + t@,
{
    let n = t.len();
    for i in 0..n
        invariant
            n == t@.len(),
            s@ == old(s)@ + t@.take(i as int),
    {
        push_char(s, t[i]);
        assert(old(s)@ + t@.take(i as int) + seq![t@[i as int]] =~= old(s)@ + t@.take(i + 1));
    }
    proof {
        assert(old(s)@ + t@.take(n as int) =~= old(s)@ + t@);
    }
}

/// Joins pieces with a single separator character between them.
pub(crate) fn join_pieces(toks: &Vec<Vec<char>>, sep: char) -> (r: String)
    ensures
        r@ == join_with(token_views(toks@), sep),
{
    let ghost tseq: Seq<Seq<char>> = toks@.map_values(|t: Vec<char>| t@);
    let mut r = String::new();
    let n = toks.len();
    for i in 0..n
        invariant
            n == toks@.len(),
            tseq == toks@.map_values(|t: Vec<char>| t@),
            r@ == join_with(tseq.take(i as int), sep),
    {
        if i > 0 {
            push_char(&mut r, sep);
        }
        append_chars(&mut r, &toks[i]);
        proof {
            assert(tseq.take(i + 1).drop_last() =~= tseq.take(i as int));
            assert(tseq.take(i + 1) =~= tseq.take(i as int).push(tseq[i as int]));
            if i == 0 {
                assert(tseq.take(1) =~= seq![tseq[0]]);
                assert(join_with(seq![tseq[0]], sep) == tseq[0]);
                assert(r@ == Seq::<char>::empty() + tseq[0]);
                assert(Seq::<char>::empty() + tseq[0] =~= tseq[0]);
            } else {
                lemma_join_push(tseq.take(i as int), tseq[i as int], sep);
                assert(r@ == join_with(tseq.take(i as int), sep) + seq![sep] + tseq[i as int]);
            }
        }
        assert(r@ == join_with(tseq.take(i + 1), sep));
    }
    proof {
        assert(tseq.take(n as int) =~= tseq);
    }
    r
}

/// Normalizes a string for comparison: lowercases it, strips every character
/// that is neither alphanumeric nor whitespace, collapses whitespace runs to
/// single spaces, and trims whitespace at both ends.
pub fn normalize_text(s: &str) -> (r: String)
    ensures
        r@ == spec_normalized(s@),
{
    let low = lowercase(s);
    let cs = chars_of(low.as_str());
    let kept = filter_chars(&cs);
    let toks = tokenize(&kept);
    join_pieces(&toks, ' ')
}

// ----------------------------------------------------------------------------
// Token-set similarity (Jaccard index), reported as an exact fraction.
// ----------------------------------------------------------------------------

/// The set of distinct normalized tokens of a string.
pub open spec fn token_set_of(s: Seq<char>) -> Set<Seq<char>> {
    norm_tokens(s).to_set()
}

/// Numerator of the Jaccard index of the two strings' token sets.
pub open spec fn sim_num(a: Seq<char>, b: Seq<char>) -> nat {
    token_set_of(a).intersect(token_set_of(b)).len()
}

/// Denominator of the Jaccard index of the two strings' token sets.
pub open spec fn sim_den(a: Seq<char>, b: Seq<char>) -> nat {
    token_set_of(a).union(token_set_of(b)).len()
}

/// Token views of a vector of token vectors.
pub open spec fn token_views(ts: Seq<Vec<char>>) -> Seq<Seq<char>> {
    ts.map_values(|t: Vec<char>| t@)
}

/// Character-wise equality of two tokens.
pub(crate) fn vec_chars_eq(a: &Vec<char>, b: &Vec<char>) -> (r: bool)
    ensures
        r == (a@ == b@),
{
    if a.len() != b.len() {
        return false;
    }
    let n = a.len();
    for i in 0..n
        invariant
            n == a@.len() == b@.len(),
            forall|j: int| 0 <= j < i ==> a@[j] == b@[j],
    {
        if a[i] != b[i] {
            return false;
        }
    }
    proof {
        assert(a@ =~= b@);
    }
    true
}

/// Whether `t` occurs among the tokens of `ts`.
fn contains_token(ts: &Vec<Vec<char>>, t: &Vec<char>) -> (r: bool)
    ensures
        r == token_views(ts@).contains(t@),
{
    let n = ts.len();
    for i in 0..n
        invariant
            n == ts@.len(),
            forall|j: int| 0 <= j < i ==> token_views(ts@)[j] != t@,
    {
        if vec_chars_eq(&ts[i], t) {
            assert(token_views(ts@)[i as int] == t@);
            return true;
        }
    }
    assert(!token_views(ts@).contains(t@));
    false
}

/// Keeps the first occurrence of each token.
fn dedup_tokens(ts: &Vec<Vec<char>>) -> (r: Vec<Vec<char>>)
    ensures
        token_views(r@).no_duplicates(),
        token_views(r@).to_set() == token_views(ts@).to_set(),
{
    let mut r: Vec<Vec<char>> = Vec::new();
    let n = ts.len();
    proof {
        assert(token_views(r@) =~= Seq::<Seq<char>>::empty());
        assert(token_views(ts@.take(0)) =~= Seq::<Seq<char>>::empty());
        assert(token_views(r@).to_set() =~= token_views(ts@.take(0)).to_set());
    }
    for i in 0..n
        invariant
            n == ts@.len(),
            token_views(r@).no_duplicates(),
            token_views(r@).to_set() == token_views(ts@.take(i as int)).to_set(),
    {
        let ghost r0: Seq<Seq<char>> = token_views(r@);
        let t = &ts[i];
        let dup = contains_token(&r, t);
        if !dup {
            let copy = clone_token(t);
            r.push(copy);
            proof {
                assert(token_views(r@) =~= r0.push(t@));
                assert(r0.push(t@).no_duplicates());
            }
        }
        proof {
            assert(token_views(ts@.take(i + 1)) =~= token_views(ts@.take(i as int)).push(
                ts@[i as int]@,
            ));
            token_views(ts@.take(i as int)).lemma_push_to_set_commute(ts@[i as int]@);
            assert(token_views(ts@.take(i + 1)).to_set() =~= token_views(
                ts@.take(i as int),
            ).to_set().insert(ts@[i as int]@));
            if !dup {
                r0.lemma_push_to_set_commute(t@);
                assert(token_views(r@).to_set() =~= r0.to_set().insert(t@));
            } else {
                assert(r0.to_set().contains(t@));
                assert(r0.to_set() =~= r0.to_set().insert(t@));
            }
        }
        assert(token_views(r@).to_set() == token_views(ts@.take(i + 1)).to_set());
    }
    proof {
        assert(ts@.take(n as int) =~= ts@);
    }
    r
}

/// Copies one token.
pub(crate) fn clone_token(t: &Vec<char>) -> (r: Vec<char>)
    ensures
        r@ == t@,
{
    let mut r: Vec<char> = Vec::new();
    let n = t.len();
    for i in 0..n
        invariant
            n == t@.len(),
            r@ =~= t@.take(i as int),
    {
        r.push(t[i]);
        assert(r@ =~= t@.take(i + 1));
    }
    proof {
        assert(t@.take(n as int) =~= t@);
    }
    r
}

/// Counts the distinct tokens shared by `ua` and `ub`; `ua` must hold no
/// duplicates.
fn count_intersection(ua: &Vec<Vec<char>>, ub: &Vec<Vec<char>>) -> (r: usize)
    requires
        token_views(ua@).no_duplicates(),
    ensures
        r == token_views(ua@).to_set().intersect(token_views(ub@).to_set()).len(),
{
    let ghost bset: Set<Seq<char>> = token_views(ub@).to_set();
    let mut count: usize = 0;
    let n = ua.len();
    proof {
        assert(token_views(ua@.take(0)) =~= Seq::<Seq<char>>::empty());
        assert(token_views(ua@.take(0)).to_set().intersect(bset) =~= Set::<Seq<char>>::empty());
    }
    for i in 0..n
        invariant
            n == ua@.len(),
            token_views(ua@).no_duplicates(),
            bset == token_views(ub@).to_set(),
            count == token_views(ua@.take(i as int)).to_set().intersect(bset).len(),
            count <= i,
    {
        let ghost aset0: Set<Seq<char>> = token_views(ua@.take(i as int)).to_set();
        let t = &ua[i];
        let inb = contains_token(ub, t);
        proof {
            assert(token_views(ua@.take(i + 1)) =~= token_views(ua@.take(i as int)).push(
                ua@[i as int]@,
            ));
            token_views(ua@.take(i as int)).lemma_push_to_set_commute(ua@[i as int]@);
            assert(token_views(ua@.take(i + 1)).to_set() =~= aset0.insert(t@));
            // the current token was not seen among the first `i`
            assert(!aset0.contains(t@)) by {
                if aset0.contains(t@) {
                    let j = choose|j: int|
                        0 <= j < i && token_views(ua@.take(i as int))[j] == t@;
                    assert(token_views(ua@)[j] == token_views(ua@)[i as int]);
                }
            }
            if inb {
                assert(aset0.insert(t@).intersect(bset) =~= aset0.intersect(bset).insert(t@));
                assert(!aset0.intersect(bset).contains(t@));
            } else {
                assert(aset0.insert(t@).intersect(bset) =~= aset0.intersect(bset));
            }
        }
        if inb {
            count = count + 1;
        }
        assert(count == token_views(ua@.take(i + 1)).to_set().intersect(bset).len());
    }
    proof {
        assert(ua@.take(n as int) =~= ua@);
    }
    count
}

/// Counts the tokens of `ub` that lie outside the token set of `ua`; `ub`
/// must hold no duplicates.
fn count_only_in_second(ua: &Vec<Vec<char>>, ub: &Vec<Vec<char>>) -> (r: usize)
    requires
        token_views(ub@).no_duplicates(),
    ensures
        token_views(ua@).to_set().union(token_views(ub@).to_set()).len() == token_views(
            ua@,
        ).to_set().len() + r,
{
    let ghost aset: Set<Seq<char>> = token_views(ua@).to_set();
    let mut count: usize = 0;
    let n = ub.len();
    proof {
        assert(token_views(ub@.take(0)) =~= Seq::<Seq<char>>::empty());
        assert(aset.union(token_views(ub@.take(0)).to_set()) =~= aset);
    }
    for i in 0..n
        invariant
            n == ub@.len(),
            token_views(ub@).no_duplicates(),
            aset == token_views(ua@).to_set(),
            aset.union(token_views(ub@.take(i as int)).to_set()).len() == aset.len() + count,
            count <= i,
    {
        let ghost bset0: Set<Seq<char>> = token_views(ub@.take(i as int)).to_set();
        let t = &ub[i];
        let ina = contains_token(ua, t);
        proof {
            assert(token_views(ub@.take(i + 1)) =~= token_views(ub@.take(i as int)).push(
                ub@[i as int]@,
            ));
            token_views(ub@.take(i as int)).lemma_push_to_set_commute(ub@[i as int]@);
            assert(token_views(ub@.take(i + 1)).to_set() =~= bset0.insert(t@));
            assert(aset.union(bset0.insert(t@)) =~= aset.union(bset0).insert(t@));
            assert(!bset0.contains(t@)) by {
                if bset0.contains(t@) {
                    let j = choose|j: int|
                        0 <= j < i && token_views(ub@.take(i as int))[j] == t@;
                    assert(token_views(ub@)[j] == token_views(ub@)[i as int]);
                }
            }
            if ina {
                assert(aset.union(bset0).contains(t@));
            } else {
                assert(!aset.union(bset0).contains(t@));
            }
        }
        if !ina {
            count = count + 1;
        }
        assert(aset.union(token_views(ub@.take(i + 1)).to_set()).len() == aset.len() + count);
    }
    proof {
        assert(ub@.take(n as int) =~= ub@);
    }
    count
}

/// The distinct normalized tokens of a string, each kept once.
fn distinct_tokens(s: &str) -> (r: Vec<Vec<char>>)
    ensures
        token_views(r@).no_duplicates(),
        token_views(r@).to_set() == token_set_of(s@),
{
    let low = lowercase(s);
    let cs = chars_of(low.as_str());
    let kept = filter_chars(&cs);
    let toks = tokenize(&kept);
    proof {
        assert(token_views(toks@) == tokens(filtered(lower_of(s@))));
    }
    dedup_tokens(&toks)
}

/// Token-set similarity of two strings, as the Jaccard index reported as
/// an exact fraction: the first component is the number of shared distinct
/// tokens, the second the number of distinct tokens over both strings
/// together.  A score of `1.0` in the contracts of the callers is the case
/// `r.0 == r.1`; both components are `0` exactly when both strings
/// normalize to nothing, which counts as identical.
pub fn text_similarity(a: &str, b: &str) -> (r: (u128, u128))
    ensures
        r.0 == sim_num(a@, b@),
        r.1 == sim_den(a@, b@),
        r.0 <= usize::MAX,
        r.1 <= usize::MAX as u128 + usize::MAX as u128,
{
    let ua = distinct_tokens(a);
    let ub = distinct_tokens(b);
    let inter = count_intersection(&ua, &ub);
    let extra = count_only_in_second(&ua, &ub);
    proof {
        token_views(ua@).unique_seq_to_set();
    }
    let num = inter as u128;
    let den = ua.len() as u128 + extra as u128;
    (num, den)
}

/// The two strings' token sets overlap symmetrically: the Jaccard fraction
/// does not depend on the order of its arguments.
pub proof fn lemma_similarity_symmetric(a: Seq<char>, b: Seq<char>)
    ensures
        sim_num(a, b) == sim_num(b, a),
        sim_den(a, b) == sim_den(b, a),
{
    assert(token_set_of(a).intersect(token_set_of(b)) =~= token_set_of(b).intersect(
        token_set_of(a),
    ));
    assert(token_set_of(a).union(token_set_of(b)) =~= token_set_of(b).union(token_set_of(a)));
}

/// The minimum title similarity of the fuzzy fallback: the Jaccard score
/// must reach `0.3`, i.e. ten times the shared-token count must reach three
/// times the combined-token count.
pub open spec fn meets_min_similarity(a: Seq<char>, b: Seq<char>) -> bool {
    10 * sim_num(a, b) >= 3 * sim_den(a, b)
}

/// Whether two strings score at least the minimum title similarity.
pub fn title_similarity_ok(a: &str, b: &str) -> (r: bool)
    ensures
        r == meets_min_similarity(a@, b@),
{
    let (num, den) = text_similarity(a, b);
    num * 10 >= den * 3
}

/// A string compared with itself scores `1.0`: numerator and denominator of
/// the Jaccard fraction agree, and they are positive whenever the string
/// normalizes to at least one token.
pub proof fn lemma_similarity_self(a: Seq<char>)
    ensures
        sim_num(a, a) == sim_den(a, a),
        norm_tokens(a).len() > 0 ==> sim_den(a, a) > 0,
{
    assert(token_set_of(a).intersect(token_set_of(a)) =~= token_set_of(a));
    assert(token_set_of(a).union(token_set_of(a)) =~= token_set_of(a));
    if norm_tokens(a).len() > 0 {
        assert(token_set_of(a).contains(norm_tokens(a)[0]));
        if token_set_of(a).len() == 0 {
            token_set_of(a).lemma_len0_is_empty();
        }
    }
}

} // verus!
