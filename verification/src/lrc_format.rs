use vstd::prelude::*;

use crate::text::{append_chars, chars_of, token_views};
use crate::utils::{find_nonspace, skip_spaces, split_lines, lines_of};

verus! {

// ----------------------------------------------------------------------------
// The grammar of a synced-lyrics line: `[m:ss.xx]` then the line's text,
// with one to seven minute digits and single spaces allowed after the tag.
// ----------------------------------------------------------------------------

/// Whether a character is a decimal digit.
pub open spec fn is_digit_char(c: char) -> bool {
    48 <= c as u32 <= 57
}

/// The value of a digit character.
pub open spec fn digit_val(c: char) -> int {
    c as u32 - 48
}

/// Index of the first non-digit character at or after `i`, or the length.
pub open spec fn digits_end(l: Seq<char>, i: int) -> int
    decreases l.len() - i,
{
    if i < 0 || i >= l.len() {
        l.len() as int
    } else if is_digit_char(l[i]) {
        digits_end(l, i + 1)
    } else {
        i
    }
}

/// The number the digits `l[i..j)` spell.
pub open spec fn digits_val(l: Seq<char>, i: int, j: int) -> int
    decreases j - i,
{
    if j <= i {
        0
    } else {
        digits_val(l, i, j - 1) * 10 + digit_val(l[j - 1])
    }
}

/// A line opens with a well-formed timestamp tag: a bracket, one to seven
/// minute digits, a colon, two second digits, a dot, two centisecond
/// digits, and the closing bracket.
pub open spec fn valid_tag(l: Seq<char>) -> bool {
    let de = digits_end(l, 1);
    &&& l.len() > 0
    &&& l[0] == '['
    &&& de > 1
    &&& de - 1 <= 7
    &&& de + 7 <= l.len()
    &&& l[de] == ':'
    &&& is_digit_char(l[de + 1])
    &&& is_digit_char(l[de + 2])
    &&& l[de + 3] == '.'
    &&& is_digit_char(l[de + 4])
    &&& is_digit_char(l[de + 5])
    &&& l[de + 6] == ']'
}

/// The tag's moment in milliseconds.
pub open spec fn spec_line_ms(l: Seq<char>) -> int {
    let de = digits_end(l, 1);
    digits_val(l, 1, de) * 60000 + (digit_val(l[de + 1]) * 10 + digit_val(l[de + 2])) * 1000 + (
    digit_val(l[de + 4]) * 10 + digit_val(l[de + 5])) * 10
}

/// The line's text: everything after the tag and the spaces that follow it.
pub open spec fn spec_line_text(l: Seq<char>) -> Seq<char> {
    let de = digits_end(l, 1);
    l.skip(skip_spaces(l, de + 7))
}

/// A line the parser accepts: empty, or carrying a well-formed tag whose
/// moment fits the frame's 32-bit timestamps.
pub open spec fn spec_line_ok(l: Seq<char>) -> bool {
    l.len() == 0 || (valid_tag(l) && spec_line_ms(l) <= u32::MAX)
}

/// The timestamped entries of a whole synced-lyrics text: one per
/// non-empty line, in order.
pub open spec fn spec_sylt_entries(s: Seq<char>) -> Seq<(u32, Seq<char>)> {
    lines_of(s).filter(|l: Seq<char>| l.len() > 0).map_values(
        |l: Seq<char>| (spec_line_ms(l) as u32, spec_line_text(l)),
    )
}

/// The values of a list of parsed entries.
pub open spec fn entry_views(es: Seq<(u32, String)>) -> Seq<(u32, Seq<char>)> {
    es.map_values(|e: (u32, String)| (e.0, e.1@))
}

/// The error of a synced-lyrics text whose lines the grammar refuses.
#[derive(Clone, Copy, PartialEq, Eq, Structural, Debug)]
pub enum LrcParseError {
    InvalidLine,
}

// ----------------------------------------------------------------------------
// The parser.
// ----------------------------------------------------------------------------

/// Powers of ten.
pub open spec fn spec_pow10(n: nat) -> int
    decreases n,
{
    if n == 0 {
        1
    } else {
        10 * spec_pow10((n - 1) as nat)
    }
}

/// Powers of ten grow with the exponent.
proof fn lemma_pow10_mono(a: nat, b: nat)
    requires
        a <= b,
    ensures
        spec_pow10(a) <= spec_pow10(b),
        spec_pow10(a) >= 1,
    decreases b,
{
    if b > 0 {
        if a == b {
            lemma_pow10_mono((a - 1) as nat, (b - 1) as nat);
        } else {
            lemma_pow10_mono(a, (b - 1) as nat);
        }
    }
}

/// Finds the end of the digit run that starts at `from`.
fn find_digits_end(l: &Vec<char>, from: usize) -> (r: usize)
    requires
        from <= l@.len(),
    ensures
        r == digits_end(l@, from as int),
        from <= r <= l@.len(),
{
    let n = l.len();
    let mut i = from;
    while i < n
        invariant
            n == l@.len(),
            from <= i <= n,
            digits_end(l@, from as int) == digits_end(l@, i as int),
        decreases n - i,
    {
        let c = l[i];
        if !((c as u32) >= 48 && (c as u32) <= 57) {
            return i;
        }
        i = i + 1;
    }
    i
}

/// Parses one non-empty line against the tag grammar; rejects it when the
/// tag is missing, malformed, or names a moment past the 32-bit range.
fn parse_line(l: &Vec<char>) -> (r: Option<(u32, String)>)
    requires
        l@.len() > 0,
    ensures
        r is Some <==> valid_tag(l@) && spec_line_ms(l@) <= u32::MAX,
        r matches Some(e) ==> e.0 == spec_line_ms(l@) && e.1@ == spec_line_text(l@),
{
    let n = l.len();
    if l[0] != '[' {
        return None;
    }
    let de = find_digits_end(l, 1);
    if de <= 1 || de - 1 > 7 || n - de < 7 {
        return None;
    }
    if l[de] != ':' {
        return None;
    }
    let s1 = l[de + 1] as u32;
    let s2 = l[de + 2] as u32;
    if !(48 <= s1 && s1 <= 57 && 48 <= s2 && s2 <= 57) {
        return None;
    }
    if l[de + 3] != '.' {
        return None;
    }
    let c1 = l[de + 4] as u32;
    let c2 = l[de + 5] as u32;
    if !(48 <= c1 && c1 <= 57 && 48 <= c2 && c2 <= 57) {
        return None;
    }
    if l[de + 6] != ']' {
        return None;
    }
    assert(valid_tag(l@));
    // the minute digits
    let mut value: u64 = 0;
    let mut k: usize = 1;
    proof {
        assert(spec_pow10(0) == 1);
    }
    while k < de
        invariant
            1 <= k <= de,
            de == digits_end(l@, 1),
            de - 1 <= 7,
            de <= l@.len(),
            valid_tag(l@),
            value == digits_val(l@, 1, k as int),
            value < spec_pow10((k - 1) as nat),
        decreases de - k,
    {
        proof {
            lemma_digits_end_range(l@, 1);
            assert(digits_end(l@, k as int) == de);
            assert(is_digit_char(l@[k as int]));
        }
        let d = (l[k] as u32 - 48) as u64;
        proof {
            lemma_pow10_mono((k - 1) as nat, 7);
            assert(spec_pow10(7) == 10000000) by {
                reveal_with_fuel(spec_pow10, 9);
            }
        }
        value = value * 10 + d;
        k = k + 1;
    }
    proof {
        lemma_pow10_mono((de - 1) as nat, 7);
        assert(spec_pow10(7) == 10000000) by {
            reveal_with_fuel(spec_pow10, 9);
        }
        assert(value < 10000000);
    }
    let seconds: u64 = ((s1 - 48) * 10 + (s2 - 48)) as u64;
    let centis: u64 = ((c1 - 48) * 10 + (c2 - 48)) as u64;
    let ms: u64 = value * 60000 + seconds * 1000 + centis * 10;
    assert(ms == spec_line_ms(l@));
    if ms > 0xffff_ffff {
        return None;
    }
    let start = find_nonspace(l, de + 7);
    let mut text: Vec<char> = Vec::new();
    let mut i = start;
    proof {
        assert(text@ =~= l@.skip(start as int).take(0));
    }
    while i < n
        invariant
            n == l@.len(),
            start <= i <= n,
            text@ == l@.skip(start as int).take(i - start),
        decreases n - i,
    {
        text.push(l[i]);
        proof {
            assert(l@.skip(start as int).take(i + 1 - start) =~= l@.skip(start as int).take(
                i - start,
            ).push(l@[i as int]));
        }
        i = i + 1;
    }
    proof {
        assert(l@.skip(start as int).take(n - start) =~= l@.skip(start as int));
    }
    let mut out = String::new();
    append_chars(&mut out, &text);
    proof {
        assert(Seq::<char>::empty() + text@ =~= text@);
    }
    Some((ms as u32, out))
}

/// Every position inside a digit run is a digit and shares the run's end.
proof fn lemma_digits_end_range(l: Seq<char>, i: int)
    requires
        0 <= i <= l.len(),
    ensures
        i <= digits_end(l, i) <= l.len(),
        forall|m: int|
            i <= m < digits_end(l, i) ==> (#[trigger] digits_end(l, m)) == digits_end(l, i)
                && is_digit_char(l[m]),
    decreases l.len() - i,
{
    if i < l.len() && is_digit_char(l[i]) {
        lemma_digits_end_range(l, i + 1);
        assert forall|m: int|
            i <= m < digits_end(l, i) implies (#[trigger] digits_end(l, m)) == digits_end(l, i)
            && is_digit_char(l[m]) by {
            if m == i {
                assert(digits_end(l, i) == digits_end(l, i + 1));
            } else {
                assert(i + 1 <= m < digits_end(l, i + 1));
            }
        }
    }
}

/// Parses a synced-lyrics text into its timestamped entries, one per
/// non-empty line, for the synchronized-text frame: the moment in
/// milliseconds and the line's text.  A non-empty line without a
/// well-formed timestamp tag, or with a moment past the 32-bit range,
/// fails the whole text.
pub fn synced_lyrics_to_sylt_vec(synced_lyrics: &str) -> (r: Result<
    Vec<(u32, String)>,
    LrcParseError,
>)
    ensures
        r matches Ok(v) ==> entry_views(v@) == spec_sylt_entries(synced_lyrics@) && (forall|
            k: int,
        |
            0 <= k < lines_of(synced_lyrics@).len() ==> spec_line_ok(
                #[trigger] lines_of(synced_lyrics@)[k],
            )),
        r is Err ==> exists|k: int|
            0 <= k < lines_of(synced_lyrics@).len() && !spec_line_ok(
                #[trigger] lines_of(synced_lyrics@)[k],
            ),
{
    let cs = chars_of(synced_lyrics);
    let lines = split_lines(&cs);
    let ghost lseq: Seq<Seq<char>> = token_views(lines@);
    let mut acc: Vec<(u32, String)> = Vec::new();
    let n = lines.len();
    proof {
        reveal(Seq::filter);
        assert(entry_views(acc@) =~= lseq.take(0).filter(|l: Seq<char>| l.len() > 0).map_values(
            |l: Seq<char>| (spec_line_ms(l) as u32, spec_line_text(l)),
        ));
    }
    for i in 0..n
        invariant
            n == lines@.len(),
            lseq == token_views(lines@),
            lseq == lines_of(synced_lyrics@),
            forall|k: int| 0 <= k < i ==> spec_line_ok(#[trigger] lseq[k]),
            entry_views(acc@) == lseq.take(i as int).filter(
                |l: Seq<char>| l.len() > 0,
            ).map_values(|l: Seq<char>| (spec_line_ms(l) as u32, spec_line_text(l))),
    {
        let line = &lines[i];
        let ghost acc0: Seq<(u32, Seq<char>)> = entry_views(acc@);
        proof {
            reveal(Seq::filter);
            assert(lseq.take(i + 1).drop_last() =~= lseq.take(i as int));
            assert(lseq.take(i + 1).last() == lseq[i as int]);
        }
        if line.len() > 0 {
            match parse_line(line) {
                Some(e) => {
                    acc.push(e);
                    proof {
                        assert(entry_views(acc@) =~= acc0.push(
                            (spec_line_ms(lseq[i as int]) as u32, spec_line_text(lseq[i as int])),
                        ));
                        assert(lseq.take(i + 1).filter(|l: Seq<char>| l.len() > 0) =~= lseq.take(
                            i as int,
                        ).filter(|l: Seq<char>| l.len() > 0).push(lseq[i as int]));
                        assert(lseq.take(i + 1).filter(|l: Seq<char>| l.len() > 0).map_values(
                            |l: Seq<char>| (spec_line_ms(l) as u32, spec_line_text(l)),
                        ) =~= lseq.take(i as int).filter(|l: Seq<char>| l.len() > 0).map_values(
                            |l: Seq<char>| (spec_line_ms(l) as u32, spec_line_text(l)),
                        ).push((spec_line_ms(lseq[i as int]) as u32, spec_line_text(lseq[i as int]))));
                    }
                },
                None => {
                    return Err(LrcParseError::InvalidLine);
                },
            }
        } else {
            proof {
                assert(lseq.take(i + 1).filter(|l: Seq<char>| l.len() > 0) =~= lseq.take(
                    i as int,
                ).filter(|l: Seq<char>| l.len() > 0));
            }
        }
        assert(entry_views(acc@) == lseq.take(i + 1).filter(|l: Seq<char>| l.len() > 0).map_values(
            |l: Seq<char>| (spec_line_ms(l) as u32, spec_line_text(l)),
        ));
    }
    proof {
        assert(lseq.take(n as int) =~= lseq);
    }
    Ok(acc)
}

} // verus!
